//! Claims: who may submit them, how they are settled, and what becomes of
//! those that are not.
//!
//! A claim is submitted by the holder of a policy, or opened by a keeper's
//! automatic processing. It is settled by asking the oracle verifier whether
//! the policy's trigger was met: the policy engine then pays the policy out, or
//! the claim is rejected. Each method is one request, atomic: it is refused
//! with an error and changes nothing, or it takes effect and leaves in the
//! outbox what the ledger has to do for it. A request that depends on what
//! another contract says returns the question and changes nothing until it is
//! made again with the answer.

pub mod batches;
pub mod laws;
pub mod state;
pub mod terms;
pub mod types;

use crate::arith::{quotient, saturating_mul};
use crate::claims_processor::state::{
    AdminProposal, CLAIM_RETENTION_SECONDS, DEFAULT_CLAIM_DEADLINE, DEFAULT_ESCALATION_THRESHOLD,
    DEFAULT_STALENESS_THRESHOLD, FRAUD_FLAG_BURST, FRAUD_FLAG_COVERAGE, FRAUD_FLAG_RATE,
    LEDGER_SECONDS, MAX_BATCH_SIZE, MAX_FRAUD_SCORE, MIN_ESCALATION_THRESHOLD, ProcessorState,
    UpgradeProposal, batch_count, claim_ttl_of, comparison_of, fraud_flags, fraud_score,
    history_after, installments_due, is_subsequence, new_claim, no_reply, payout_bps, payout_fits,
    reply_at, settled_claim,
};
use crate::claims_processor::types::{
    AdminUpdated, BatchClaimsProcessed, BatchClaimsSubmitted, Claim, ClaimAgeInfo,
    ClaimDeadlineUpdated, ClaimDisputed, ClaimEscalated, ClaimResolved, ClaimResult, ClaimStatus,
    ClaimSubmitted, ClaimantHistory, ContractUpgraded, Effect, Error, EscalationThresholdUpdated,
    Event, FraudConfig, FraudConfigUpdated, FraudFlagged, FraudMode, FraudRecord, Initialized,
    InstallmentPaid, InstallmentPayoutScheduled, InstallmentSchedule, PayoutDelayUpdated,
    PendingAdminChange, PendingUpgrade, Question, Reply, Step, UpgradeApproved,
};
use crate::common::{is_address, is_address_text, or_default, same_hash, timelock_expired};
use crate::oracle_verifier::types::{TriggerComparison, TriggerCondition};
use crate::outcome::{after, answer};
use crate::policy_engine::types::{Policy, PolicyStatus};
use crate::roster::Roster;
use crate::table::{Table, copy_list, index_of, remove_value};
use crate::text::{Addr, Sym};
use vstd::prelude::*;

verus! {

/// The claims processor.
pub struct ClaimsProcessor {
    pub initialized: bool,
    pub admin: Option<Addr>,
    pub policy_engine: Option<Addr>,
    pub risk_pool: Option<Addr>,
    pub oracle_verifier: Option<Addr>,
    pub staleness_threshold: Option<u64>,
    pub claims: Table<u128, Claim>,
    /// The claim of each policy that has one.
    pub policy_claims: Table<u128, u128>,
    pub next_claim_id: Option<u128>,
    pub pending_claims: Vec<u128>,
    pub keepers: Table<Addr, bool>,
    pub paused: bool,
    pub pending_admin: Option<Addr>,
    pub pending_admin_since: Option<u64>,
    pub pending_admin_change: Option<PendingAdminChange>,
    pub version: Option<u32>,
    pub guardians: Vec<Addr>,
    pub guardian_threshold: u32,
    pub pending_upgrade: Option<PendingUpgrade>,
    pub escalation_threshold: Option<u64>,
    pub claim_deadline: Option<u64>,
    pub payout_delay: u64,
    pub identity_requirements: Table<u128, Sym>,
    pub fraud_config: Option<FraudConfig>,
    pub claimant_history: Table<Addr, ClaimantHistory>,
    pub fraud_records: Table<u128, FraudRecord>,
    /// What the ledger has to do for the calls made so far.
    pub outbox: Vec<Effect>,
}

impl View for PendingUpgrade {
    type V = UpgradeProposal;

    open spec fn view(&self) -> UpgradeProposal {
        UpgradeProposal {
            new_wasm_hash: self.new_wasm_hash,
            new_version: self.new_version,
            approvals: self.approvals@,
        }
    }
}

impl View for PendingAdminChange {
    type V = AdminProposal;

    open spec fn view(&self) -> AdminProposal {
        AdminProposal { new_admin: self.new_admin, approvals: self.approvals@ }
    }
}

impl View for ClaimsProcessor {
    type V = ProcessorState;

    open spec fn view(&self) -> ProcessorState {
        ProcessorState {
            initialized: self.initialized,
            admin: self.admin,
            policy_engine: self.policy_engine,
            risk_pool: self.risk_pool,
            oracle_verifier: self.oracle_verifier,
            staleness_threshold: self.staleness_threshold,
            claims: self.claims@,
            policy_claims: self.policy_claims@,
            next_claim_id: self.next_claim_id,
            pending_claims: self.pending_claims@,
            keepers: self.keepers@,
            paused: self.paused,
            pending_admin: self.pending_admin,
            pending_admin_since: self.pending_admin_since,
            pending_admin_change: match self.pending_admin_change {
                Some(p) => Some(p@),
                None => None,
            },
            version: self.version,
            guardians: self.guardians@,
            guardian_threshold: self.guardian_threshold,
            pending_upgrade: match self.pending_upgrade {
                Some(p) => Some(p@),
                None => None,
            },
            escalation_threshold: self.escalation_threshold,
            claim_deadline: self.claim_deadline,
            payout_delay: self.payout_delay,
            identity_requirements: self.identity_requirements@,
            fraud_config: self.fraud_config,
            claimant_history: self.claimant_history@,
            fraud_records: self.fraud_records@,
            outbox: self.outbox@,
        }
    }
}

/// Map a policy's comparison to the oracle verifier's.
fn map_comparison(c: crate::policy_engine::types::TriggerComparison) -> (r: TriggerComparison)
    ensures
        r == comparison_of(c),
{
    match c {
        crate::policy_engine::types::TriggerComparison::LessThan => TriggerComparison::LessThan,
        crate::policy_engine::types::TriggerComparison::GreaterThan => TriggerComparison::GreaterThan,
        crate::policy_engine::types::TriggerComparison::Equal => TriggerComparison::Equal,
    }
}

/// How many ledgers a claim's record is kept for, where the network keeps
/// nothing longer than `max_ttl`.
pub fn claim_ttl(max_ttl: u32) -> (r: u32)
    ensures
        r == claim_ttl_of(max_ttl),
{
    let desired: u32 = (CLAIM_RETENTION_SECONDS / LEDGER_SECONDS) as u32;
    if desired <= max_ttl {
        desired
    } else {
        max_ttl
    }
}

impl Reply {
    /// No answers yet.
    pub fn none() -> (r: Reply)
        ensures
            r == no_reply(),
    {
        Reply { policy: None, trigger: None }
    }
}

/// The answers for one item of a batch.
fn get_reply(replies: &Vec<Reply>, i: usize) -> (r: Reply)
    ensures
        r == reply_at(replies@, i as int),
{
    if i < replies.len() {
        replies[i]
    } else {
        Reply::none()
    }
}

/// How many items of a batch of `n` are taken.
fn clamp_batch(n: usize) -> (r: usize)
    ensures
        r == batch_count(n as nat),
        r <= n,
        r <= MAX_BATCH_SIZE,
{
    if n > MAX_BATCH_SIZE as usize {
        MAX_BATCH_SIZE as usize
    } else {
        n
    }
}

impl ClaimsProcessor {
    /// A processor that nothing was stored in.
    pub fn new() -> (r: ClaimsProcessor)
        ensures
            r@ == ProcessorState::fresh(),
    {
        let r = ClaimsProcessor {
            initialized: false,
            admin: None,
            policy_engine: None,
            risk_pool: None,
            oracle_verifier: None,
            staleness_threshold: None,
            claims: Table::new(),
            policy_claims: Table::new(),
            next_claim_id: None,
            pending_claims: Vec::new(),
            keepers: Table::new(),
            paused: false,
            pending_admin: None,
            pending_admin_since: None,
            pending_admin_change: None,
            version: None,
            guardians: Vec::new(),
            guardian_threshold: 0,
            pending_upgrade: None,
            escalation_threshold: None,
            claim_deadline: None,
            payout_delay: 0,
            identity_requirements: Table::new(),
            fraud_config: None,
            claimant_history: Table::new(),
            fraud_records: Table::new(),
            outbox: Vec::new(),
        };
        assert(r@ =~= ProcessorState::fresh());
        r
    }

    /// A processor of its own in the same state.
    fn duplicate(&self) -> (r: ClaimsProcessor)
        ensures
            r@ == self@,
    {
        let mut outbox: Vec<Effect> = Vec::new();
        let mut i: usize = 0;
        while i < self.outbox.len()
            invariant
                i <= self.outbox@.len(),
                outbox@ == self.outbox@.take(i as int),
            decreases self.outbox.len() - i,
        {
            outbox.push(self.outbox[i].copied());
            assert(self.outbox@.take(i + 1) =~= self.outbox@.take(i as int).push(self.outbox@[i as int]));
            i += 1;
        }
        assert(self.outbox@.take(i as int) =~= self.outbox@);
        let r = ClaimsProcessor {
            initialized: self.initialized,
            admin: self.admin,
            policy_engine: self.policy_engine,
            risk_pool: self.risk_pool,
            oracle_verifier: self.oracle_verifier,
            staleness_threshold: self.staleness_threshold,
            claims: self.claims.duplicate(),
            policy_claims: self.policy_claims.duplicate(),
            next_claim_id: self.next_claim_id,
            pending_claims: copy_list(&self.pending_claims),
            keepers: self.keepers.duplicate(),
            paused: self.paused,
            pending_admin: self.pending_admin,
            pending_admin_since: self.pending_admin_since,
            pending_admin_change: match &self.pending_admin_change {
                Some(p) => Some(
                    PendingAdminChange {
                        new_admin: p.new_admin,
                        approvals: copy_list(&p.approvals),
                    },
                ),
                None => None,
            },
            version: self.version,
            guardians: copy_list(&self.guardians),
            guardian_threshold: self.guardian_threshold,
            pending_upgrade: match &self.pending_upgrade {
                Some(p) => Some(
                    PendingUpgrade {
                        new_wasm_hash: p.new_wasm_hash,
                        new_version: p.new_version,
                        approvals: copy_list(&p.approvals),
                    },
                ),
                None => None,
            },
            escalation_threshold: self.escalation_threshold,
            claim_deadline: self.claim_deadline,
            payout_delay: self.payout_delay,
            identity_requirements: self.identity_requirements.duplicate(),
            fraud_config: self.fraud_config,
            claimant_history: self.claimant_history.duplicate(),
            fraud_records: self.fraud_records.duplicate(),
            outbox,
        };
        assert(r@ =~= self@);
        r
    }

    fn send(&mut self, e: Effect)
        ensures
            final(self)@ == old(self)@.send(e),
    {
        self.outbox.push(e);
        assert(self@ =~= old(self)@.send(e));
    }

    fn emit(&mut self, e: Event)
        ensures
            final(self)@ == old(self)@.emit(e),
    {
        self.send(Effect::Emit(e));
    }

    fn demand(&mut self, who: Addr)
        ensures
            final(self)@ == old(self)@.demand(who),
    {
        self.send(Effect::RequireAuth(who));
    }

    fn require_admin(&self, caller: &Addr) -> (r: Result<(), Error>)
        ensures
            match self@.admin_error(*caller) {
                Some(e) => r == Err::<(), Error>(e),
                None => r is Ok,
            },
    {
        match self.admin {
            None => Err(Error::NotInitialized),
            Some(admin) => if caller.same(&admin) {
                Ok(())
            } else {
                Err(Error::Unauthorized)
            },
        }
    }

    /// Refuse a caller that is no keeper, and anyone while the processor is
    /// paused.
    fn require_keeper(&self, caller: &Addr) -> (r: Result<(), Error>)
        ensures
            match self@.keeper_error(*caller) {
                Some(e) => r == Err::<(), Error>(e),
                None => r is Ok,
            },
    {
        if !self.is_keeper(caller) {
            return Err(Error::Unauthorized);
        }
        if self.paused {
            return Err(Error::Paused);
        }
        Ok(())
    }

    /// Refuse an address that is neither an account's nor a contract's.
    pub fn validate_stellar_address(address: &Addr) -> (r: Result<(), Error>)
        ensures
            r == if is_address_text(address@) {
                Ok(())
            } else {
                Err(Error::InvalidAddress)
            },
    {
        if is_address(address) {
            Ok(())
        } else {
            Err(Error::InvalidAddress)
        }
    }

    /// Set the processor up, once. `staleness_threshold` is the age in seconds
    /// up to which oracle data settles a claim.
    pub fn initialize(
        &mut self,
        admin: Addr,
        policy_engine: Addr,
        risk_pool: Addr,
        oracle_verifier: Addr,
        staleness_threshold: u64,
    ) -> (r: Result<(), Error>)
        ensures
            r == answer(
                old(self)@.initialize(
                    admin,
                    policy_engine,
                    risk_pool,
                    oracle_verifier,
                    staleness_threshold,
                ),
            ),
            final(self)@ == after(
                old(self)@,
                old(self)@.initialize(
                    admin,
                    policy_engine,
                    risk_pool,
                    oracle_verifier,
                    staleness_threshold,
                ),
            ),
    {
        if self.initialized {
            return Err(Error::AlreadyInitialized);
        }
        if !is_address(&admin) || !is_address(&policy_engine) || !is_address(&risk_pool)
            || !is_address(&oracle_verifier) {
            return Err(Error::InvalidAddress);
        }
        self.initialized = true;
        self.admin = Some(admin);
        self.policy_engine = Some(policy_engine);
        self.risk_pool = Some(risk_pool);
        self.oracle_verifier = Some(oracle_verifier);
        self.staleness_threshold = Some(staleness_threshold);
        self.next_claim_id = Some(1);
        self.pending_claims = Vec::new();
        self.paused = false;
        self.claim_deadline = Some(DEFAULT_CLAIM_DEADLINE);
        self.escalation_threshold = Some(DEFAULT_ESCALATION_THRESHOLD);
        self.demand(admin);
        self.emit(
            Event::Initialized(
                Initialized {
                    admin,
                    policy_engine,
                    risk_pool,
                    oracle_verifier,
                    staleness_threshold,
                },
            ),
        );
        assert(self@ =~= after(
            old(self)@,
            old(self)@.initialize(
                admin,
                policy_engine,
                risk_pool,
                oracle_verifier,
                staleness_threshold,
            ),
        ));
        Ok(())
    }

    /// Let an address settle claims.
    pub fn add_keeper(&mut self, admin: Addr, keeper: Addr) -> (r: Result<(), Error>)
        ensures
            r == answer(old(self)@.add_keeper(admin, keeper)),
            final(self)@ == after(old(self)@, old(self)@.add_keeper(admin, keeper)),
    {
        match self.require_admin(&admin) {
            Err(e) => {
                return Err(e);
            },
            Ok(()) => {},
        }
        self.keepers.insert(keeper, true);
        self.demand(admin);
        self.emit(Event::KeeperAdded { keeper });
        assert(self@ =~= after(old(self)@, old(self)@.add_keeper(admin, keeper)));
        Ok(())
    }

    /// Take the right to settle claims away.
    pub fn remove_keeper(&mut self, admin: Addr, keeper: Addr) -> (r: Result<(), Error>)
        ensures
            r == answer(old(self)@.remove_keeper(admin, keeper)),
            final(self)@ == after(old(self)@, old(self)@.remove_keeper(admin, keeper)),
    {
        match self.require_admin(&admin) {
            Err(e) => {
                return Err(e);
            },
            Ok(()) => {},
        }
        let _ = self.keepers.remove(&keeper);
        self.demand(admin);
        self.emit(Event::KeeperRemoved { keeper });
        assert(self@ =~= after(old(self)@, old(self)@.remove_keeper(admin, keeper)));
        Ok(())
    }

    /// Whether an address may settle claims.
    pub fn is_keeper(&self, keeper: &Addr) -> (r: bool)
        ensures
            r == self@.is_keeper(*keeper),
    {
        match self.keepers.get(keeper) {
            Some(b) => *b,
            None => false,
        }
    }

    /// Judge a submission: the scores of the rules that fire added up, and
    /// their flags.
    pub fn score_submission(
        cfg: &FraudConfig,
        now: u64,
        history: &ClaimantHistory,
        coverage_amount: i128,
    ) -> (r: (u32, u32))
        ensures
            r.0 == fraud_score(*cfg, now, *history, coverage_amount),
            r.1 == fraud_flags(*cfg, now, *history, coverage_amount),
    {
        let mut score: u32 = 0;
        let mut flags: u32 = 0;
        if cfg.rate_window_secs > 0 && cfg.rate_score > 0 && history.last_submission_at > 0
            && now.saturating_sub(history.last_submission_at) < cfg.rate_window_secs {
            score = score.saturating_add(cfg.rate_score);
            flags = flags + FRAUD_FLAG_RATE;
        }
        if cfg.burst_window_secs > 0 && cfg.burst_count > 0 && cfg.burst_score > 0 {
            let bucket_alive = history.burst_bucket_start > 0 && now.saturating_sub(
                history.burst_bucket_start,
            ) < cfg.burst_window_secs;
            let projected: u32 = if bucket_alive {
                history.burst_count.saturating_add(1)
            } else {
                1
            };
            if projected >= cfg.burst_count {
                score = score.saturating_add(cfg.burst_score);
                flags = flags + FRAUD_FLAG_BURST;
            }
        }
        if cfg.coverage_anomaly_multiplier > 0 && cfg.coverage_score > 0
            && history.max_coverage_ever > 0 {
            let threshold: i128 = saturating_mul(
                history.max_coverage_ever,
                cfg.coverage_anomaly_multiplier as i128,
            );
            if coverage_amount > threshold {
                score = score.saturating_add(cfg.coverage_score);
                flags = flags + FRAUD_FLAG_COVERAGE;
            }
        }
        (score, flags)
    }

    fn claimant_history(&self, claimant: &Addr) -> (r: ClaimantHistory)
        ensures
            r == self@.history_of(*claimant),
    {
        match self.claimant_history.get(claimant) {
            Some(h) => *h,
            None => ClaimantHistory {
                last_submission_at: 0,
                burst_bucket_start: 0,
                burst_count: 0,
                max_coverage_ever: 0,
                total_submissions: 0,
            },
        }
    }

    /// Count a submission in the claimant's history. A burst window of zero means
    /// that bursts are not followed.
    pub fn update_claimant_history(
        &mut self,
        claimant: Addr,
        now: u64,
        coverage_amount: i128,
        burst_window_secs: u64,
    )
        ensures
            final(self)@ == (ProcessorState {
                claimant_history: old(self)@.claimant_history.insert(
                    claimant,
                    history_after(
                        old(self)@.history_of(claimant),
                        now,
                        coverage_amount,
                        burst_window_secs,
                    ),
                ),
                ..old(self)@
            }),
    {
        let prev = self.claimant_history(&claimant);
        let start: u64;
        let count: u32;
        if burst_window_secs == 0 {
            start = 0;
            count = 0;
        } else if prev.burst_bucket_start == 0 || now.saturating_sub(prev.burst_bucket_start)
            >= burst_window_secs {
            start = now;
            count = 1;
        } else {
            start = prev.burst_bucket_start;
            count = prev.burst_count.saturating_add(1);
        }
        let next = ClaimantHistory {
            last_submission_at: now,
            burst_bucket_start: start,
            burst_count: count,
            max_coverage_ever: if prev.max_coverage_ever >= coverage_amount {
                prev.max_coverage_ever
            } else {
                coverage_amount
            },
            total_submissions: prev.total_submissions.saturating_add(1),
        };
        self.claimant_history.insert(claimant, next);
        assert(self@ =~= (ProcessorState {
            claimant_history: old(self)@.claimant_history.insert(
                claimant,
                history_after(
                    old(self)@.history_of(claimant),
                    now,
                    coverage_amount,
                    burst_window_secs,
                ),
            ),
            ..old(self)@
        }));
    }

    /// Put a submission before the fraud detector: refuse it, or note the
    /// judgement and let it pass. Gives the score and the flags; both are zero
    /// where there is no detector.
    pub fn evaluate_fraud(&mut self, now: u64, claim_id: u128, claimant: Addr, coverage_amount: i128) -> (r:
        Result<(u32, u32), Error>)
        ensures
            match r {
                Ok(judgement) => judgement == old(self)@.judge(now, claimant, coverage_amount) && (old(
                    self,
                )@.is_flagged(now, claimant, coverage_amount)
                    ==> old(self)@.fraud_config->0.mode != FraudMode::Block) && final(self)@
                    == old(self)@.fraud_noted(now, claim_id, claimant, coverage_amount),
                Err(e) => old(self)@.is_flagged(now, claimant, coverage_amount)
                    && old(self)@.fraud_config->0.mode == FraudMode::Block && e
                    == Error::FraudSuspected && final(self)@ == old(self)@,
            },
    {
        let cfg = match self.fraud_config {
            Some(cfg) => cfg,
            None => {
                return Ok((0, 0));
            },
        };
        let history = self.claimant_history(&claimant);
        let (score, flags) = Self::score_submission(&cfg, now, &history, coverage_amount);
        if score >= cfg.fraud_threshold_score && cfg.fraud_threshold_score > 0 {
            match cfg.mode {
                FraudMode::Block => {
                    return Err(Error::FraudSuspected);
                },
                FraudMode::FlagOnly => {
                    self.emit(
                        Event::FraudFlagged(
                            FraudFlagged { claim_id, claimant, score, flags, mode: cfg.mode },
                        ),
                    );
                    let ghost flagged = self@;
                    let record = FraudRecord { claim_id, score, flags, checked_at: now };
                    self.fraud_records.insert(claim_id, record);
                    assert(self@ =~= flagged.with_record(record));
                },
            }
        }
        Ok((score, flags))
    }

    fn next_claim_id(&mut self) -> (id: u128)
        requires
            old(self)@.claim_counter() < u128::MAX,
        ensures
            id == old(self)@.claim_counter(),
            final(self)@ == (ProcessorState { next_claim_id: Some((id + 1) as u128), ..old(self)@ }),
    {
        let id: u128 = match self.next_claim_id {
            Some(id) => id,
            None => 1,
        };
        self.next_claim_id = Some(id + 1);
        assert(self@ =~= (ProcessorState { next_claim_id: Some((id + 1) as u128), ..old(self)@ }));
        id
    }

    /// Open a claim for a policy and queue it.
    fn open_claim(&mut self, now: u64, policy_id: u128, claimant: Addr, coverage_amount: i128) -> (id:
        u128)
        requires
            old(self)@.claim_counter() < u128::MAX,
        ensures
            id == old(self)@.claim_counter(),
            final(self)@ == old(self)@.open_claim(now, policy_id, claimant, coverage_amount),
    {
        let id: u128 = self.next_claim_id();
        let claim = Claim {
            id,
            policy_id,
            claimant,
            coverage_amount,
            observed_value: None,
            trigger_met: false,
            status: ClaimStatus::Pending,
            submitted_at: now,
            processed_at: None,
            dispute_reason: None,
            paid_amount: None,
            partial_payout_bps: None,
            installments: None,
            payout_ready_at: None,
            identity_verified: false,
            verification_type: None,
            verification_time: None,
        };
        assert(claim == new_claim(id, policy_id, claimant, coverage_amount, now));
        self.claims.insert(id, claim);
        self.policy_claims.insert(policy_id, id);
        self.pending_claims.push(id);
        self.emit(
            Event::ClaimSubmitted(
                ClaimSubmitted { claim_id: id, policy_id, claimant, coverage_amount },
            ),
        );
        assert(self@ =~= old(self)@.open_claim(now, policy_id, claimant, coverage_amount));
        id
    }

    /// Submit a claim for a claimant whose authorisation is already demanded.
    fn submit_inner(
        &mut self,
        now: u64,
        claimant: Addr,
        policy_id: u128,
        policy: Option<Policy>,
        item: usize,
    ) -> (r: Result<Step<u128>, Error>)
        requires
            old(self)@.claim_counter() < u128::MAX,
        ensures
            r == answer(old(self)@.submit_inner(now, claimant, policy_id, policy, item)),
            final(self)@ == after(
                old(self)@,
                old(self)@.submit_inner(now, claimant, policy_id, policy, item),
            ),
    {
        if self.policy_claims.contains(&policy_id) {
            return Err(Error::AlreadyClaimed);
        }
        let policy_engine = match self.policy_engine {
            Some(a) => a,
            None => {
                return Err(Error::NotInitialized);
            },
        };
        let policy = match policy {
            Some(p) => p,
            None => {
                return Ok(
                    Step::Ask { item, question: Question::Policy { policy_engine, policy_id } },
                );
            },
        };
        if !policy.policyholder.same(&claimant) {
            return Err(Error::Unauthorized);
        }
        if policy.status != PolicyStatus::Active {
            return Err(Error::PolicyNotActive);
        }
        if policy.end_time > 0 {
            let cutoff: u64 = policy.end_time.saturating_add(self.get_claim_deadline());
            if now > cutoff {
                return Err(Error::ClaimDeadlinePassed);
            }
        }
        let claim_id: u128 = match self.next_claim_id {
            Some(id) => id,
            None => 1,
        };
        match self.evaluate_fraud(now, claim_id, claimant, policy.coverage_amount) {
            Err(e) => {
                return Err(e);
            },
            Ok(_) => {},
        }
        let id: u128 = self.open_claim(now, policy_id, claimant, policy.coverage_amount);
        let burst_window: u64 = match self.fraud_config {
            Some(cfg) => cfg.burst_window_secs,
            None => 0,
        };
        self.update_claimant_history(claimant, now, policy.coverage_amount, burst_window);
        Ok(Step::Done(id))
    }

    /// Submit a claim for a policy: only its holder can, once, while it is
    /// active, and until the claim deadline after its end.
    pub fn submit_claim(&mut self, now: u64, claimant: Addr, policy_id: u128, reply: Reply) -> (r:
        Result<Step<u128>, Error>)
        requires
            old(self)@.claim_counter() < u128::MAX,
        ensures
            r == answer(old(self)@.submit_claim(now, claimant, policy_id, reply)),
            final(self)@ == after(
                old(self)@,
                old(self)@.submit_claim(now, claimant, policy_id, reply),
            ),
    {
        if self.paused {
            return Err(Error::Paused);
        }
        self.demand(claimant);
        let r = self.submit_inner(now, claimant, policy_id, reply.policy, 0);
        match r {
            Ok(Step::Done(_)) => {},
            _ => {
                self.withdraw_demand();
                assert(self@ =~= old(self)@);
            },
        }
        r
    }

    /// Submit claims for several policies at once, all of them or none.
    pub fn batch_submit_claims(
        &mut self,
        now: u64,
        claimant: Addr,
        policy_ids: &Vec<u128>,
        replies: &Vec<Reply>,
    ) -> (r: Result<Step<Vec<u128>>, Error>)
        requires
            old(self)@.claim_counter() + MAX_BATCH_SIZE <= u128::MAX,
        ensures
            match old(self)@.batch_submit_claims(now, claimant, policy_ids@, replies@) {
                Err(e) => r == Err::<Step<Vec<u128>>, Error>(e) && final(self)@ == old(self)@,
                Ok((s, Step::Ask { item, question })) => r == Ok::<_, Error>(
                    Step::<Vec<u128>>::Ask { item, question },
                ) && final(self)@ == s && s == old(self)@,
                Ok((s, Step::Done(ids))) => r matches Ok(Step::Done(v)) && v@ == ids
                    && final(self)@ == s,
            },
    {
        if self.paused {
            return Err(Error::Paused);
        }
        let count: usize = clamp_batch(policy_ids.len());
        let mut work = self.duplicate();
        work.demand(claimant);
        let ghost start = work@;
        let mut ids: Vec<u128> = Vec::new();
        let mut i: usize = 0;
        while i < count
            invariant
                i <= count <= policy_ids@.len(),
                count <= MAX_BATCH_SIZE,
                count == batch_count(policy_ids@.len()),
                self@ == old(self)@,
                !self@.paused,
                start == self@.demand(claimant),
                start.claim_counter() + MAX_BATCH_SIZE <= u128::MAX,
                work@.claim_counter() == start.claim_counter() + i,
                start.submit_items(now, claimant, policy_ids@, replies@, i as nat) == Ok::<
                    _,
                    Error,
                >((work@, Step::Done(ids@))),
            decreases count - i,
        {
            let reply = get_reply(replies, i);
            let ghost before = work@;
            match work.submit_inner(now, claimant, policy_ids[i], reply.policy, i) {
                Ok(Step::Done(id)) => {
                    ids.push(id);
                },
                Ok(Step::Ask { item, question }) => {
                    proof {
                        start.lemma_submit_items_stop(
                            now,
                            claimant,
                            policy_ids@,
                            replies@,
                            (i + 1) as nat,
                            count as nat,
                        );
                    }
                    return Ok(Step::Ask { item, question });
                },
                Err(e) => {
                    proof {
                        start.lemma_submit_items_stop(
                            now,
                            claimant,
                            policy_ids@,
                            replies@,
                            (i + 1) as nat,
                            count as nat,
                        );
                    }
                    return Err(e);
                },
            }
            i += 1;
        }
        work.emit(
            Event::BatchClaimsSubmitted(BatchClaimsSubmitted { claimant, count: count as u32 }),
        );
        *self = work;
        Ok(Step::Done(ids))
    }

    /// How long after the end of a policy a claim can be submitted, in seconds.
    pub fn get_claim_deadline(&self) -> (r: u64)
        ensures
            r == self@.deadline(),
    {
        match self.claim_deadline {
            Some(d) => d,
            None => DEFAULT_CLAIM_DEADLINE,
        }
    }

    /// Take back the demand that was sent last.
    fn withdraw_demand(&mut self)
        requires
            old(self)@.outbox.len() > 0,
        ensures
            final(self)@ == (ProcessorState {
                outbox: old(self)@.outbox.drop_last(),
                ..old(self)@
            }),
    {
        let _ = self.outbox.pop();
        assert(self@ =~= (ProcessorState {
            outbox: old(self)@.outbox.drop_last(),
            ..old(self)@
        }));
    }

    fn dequeue(&mut self, claim_id: u128)
        ensures
            final(self)@ == old(self)@.dequeued(claim_id),
    {
        remove_value(&mut self.pending_claims, &claim_id);
        assert(self@ =~= old(self)@.dequeued(claim_id));
    }

    fn store_claim(&mut self, claim_id: u128, claim: Claim)
        ensures
            final(self)@ == old(self)@.with_claim(claim_id, claim),
    {
        self.claims.insert(claim_id, claim);
        assert(self@ =~= old(self)@.with_claim(claim_id, claim));
    }

    fn load_claim(&self, claim_id: u128) -> (r: Result<Claim, Error>)
        ensures
            match r {
                Ok(c) => self@.claims.contains_key(claim_id) && c == self@.claims[claim_id],
                Err(e) => !self@.claims.contains_key(claim_id) && e == Error::ClaimNotFound,
            },
    {
        match self.claims.get(&claim_id) {
            Some(c) => Ok(*c),
            None => Err(Error::ClaimNotFound),
        }
    }

    /// The question that decides whether a policy pays.
    fn trigger_question(&self, policy: &Policy) -> (r: Question)
        requires
            self@.oracle_verifier is Some,
        ensures
            r == self@.trigger_question(*policy),
    {
        let condition = TriggerCondition {
            data_type: policy.oracle_data_type,
            key: policy.oracle_key,
            threshold: policy.trigger_threshold,
            comparison: map_comparison(policy.trigger_comparison),
            tolerance: 0,
        };
        let max_age_seconds: u64 = match self.staleness_threshold {
            Some(t) => t,
            None => DEFAULT_STALENESS_THRESHOLD,
        };
        let oracle_verifier = self.oracle_verifier.unwrap();
        Question::Trigger { oracle_verifier, condition, max_age_seconds }
    }

    /// Evaluate a pending claim against its policy's trigger and settle it.
    fn evaluate_and_settle(
        &mut self,
        now: u64,
        claim: Claim,
        policy: &Policy,
        partial_payout_bps: Option<u32>,
        trigger: Option<bool>,
        item: usize,
    ) -> (r: Result<Step<ClaimResult>, Error>)
        requires
            claim.status == ClaimStatus::Pending && trigger == Some(true) && !old(
                self,
            )@.lacks_identity(claim, *policy) ==> payout_fits(
                claim.coverage_amount as int,
                payout_bps(partial_payout_bps),
            ),
        ensures
            r == answer(
                old(self)@.evaluate_and_settle(
                    now,
                    claim,
                    *policy,
                    partial_payout_bps,
                    trigger,
                    item,
                ),
            ),
            final(self)@ == after(
                old(self)@,
                old(self)@.evaluate_and_settle(
                    now,
                    claim,
                    *policy,
                    partial_payout_bps,
                    trigger,
                    item,
                ),
            ),
    {
        if claim.status != ClaimStatus::Pending {
            return Err(Error::AlreadyProcessed);
        }
        if self.oracle_verifier.is_none() {
            return Err(Error::NotInitialized);
        }
        let policy_engine = match self.policy_engine {
            Some(a) => a,
            None => {
                return Err(Error::NotInitialized);
            },
        };
        let risk_pool = match self.risk_pool {
            Some(a) => a,
            None => {
                return Err(Error::NotInitialized);
            },
        };
        let met = match trigger {
            Some(b) => b,
            None => {
                return Ok(Step::Ask { item, question: self.trigger_question(policy) });
            },
        };
        if met && !claim.identity_verified && self.identity_requirements.contains(
            &policy.product_id,
        ) {
            return Err(Error::IdentityVerificationRequired);
        }
        let asked_bps: u32 = match partial_payout_bps {
            Some(b) => b,
            None => 10_000,
        };
        let bps: u32 = if asked_bps > 10_000 {
            10_000
        } else {
            asked_bps
        };
        let delay: u64 = self.payout_delay;
        let policy_id: u128 = claim.policy_id;
        let mut settled = claim;
        settled.trigger_met = met;
        settled.processed_at = Some(now);
        let result = if met {
            if bps >= 10_000 {
                settled.status = ClaimStatus::Paid;
                settled.paid_amount = Some(claim.coverage_amount);
                settled.partial_payout_bps = Some(10_000);
            } else {
                settled.status = ClaimStatus::PartiallyPaid;
                settled.paid_amount = Some(quotient(claim.coverage_amount * bps as i128, 10_000));
                settled.partial_payout_bps = Some(bps);
            }
            if delay > 0 {
                settled.payout_ready_at = Some(now.saturating_add(delay));
            } else {
                self.send(Effect::PayPolicy { policy_engine, policy_id });
                self.send(Effect::ReleaseForClaim { risk_pool, policy_id });
            }
            if bps >= 10_000 {
                ClaimResult::Paid
            } else {
                ClaimResult::PartiallyPaid
            }
        } else {
            settled.status = ClaimStatus::Rejected;
            ClaimResult::Rejected
        };
        assert(settled == settled_claim(claim, now, met, bps, delay));
        self.store_claim(claim.id, settled);
        self.dequeue(claim.id);
        if met {
            self.emit(
                Event::ClaimPaid {
                    claim_id: claim.id,
                    policy_id,
                    coverage_amount: claim.coverage_amount,
                },
            );
        } else {
            self.emit(Event::ClaimRejected { claim_id: claim.id, policy_id });
        }
        self.emit(
            Event::ClaimSettled {
                claim_id: claim.id,
                trigger_met: met,
                coverage_amount: claim.coverage_amount,
            },
        );
        Ok(Step::Done(result))
    }

    /// Process a claim for a keeper whose authorisation is already demanded.
    fn process_inner(
        &mut self,
        now: u64,
        claim_id: u128,
        partial_payout_bps: Option<u32>,
        reply: Reply,
        item: usize,
    ) -> (r: Result<Step<ClaimResult>, Error>)
        requires
            old(self)@.claim_fits(claim_id, partial_payout_bps, reply),
        ensures
            r == answer(
                old(self)@.process_inner(now, claim_id, partial_payout_bps, reply, item),
            ),
            final(self)@ == after(
                old(self)@,
                old(self)@.process_inner(now, claim_id, partial_payout_bps, reply, item),
            ),
    {
        let claim = match self.load_claim(claim_id) {
            Ok(c) => c,
            Err(e) => {
                return Err(e);
            },
        };
        if claim.status != ClaimStatus::Pending {
            return Ok(Step::Done(ClaimResult::AlreadyProcessed));
        }
        let policy_engine = match self.policy_engine {
            Some(a) => a,
            None => {
                return Err(Error::NotInitialized);
            },
        };
        match reply.policy {
            Some(policy) => self.evaluate_and_settle(
                now,
                claim,
                &policy,
                partial_payout_bps,
                reply.trigger,
                item,
            ),
            None => Ok(
                Step::Ask {
                    item,
                    question: Question::Policy { policy_engine, policy_id: claim.policy_id },
                },
            ),
        }
    }

    /// Settle a pending claim. `partial_payout_bps` is the share of the
    /// coverage to pay where the trigger is met; all of it by default.
    pub fn process_claim(
        &mut self,
        now: u64,
        keeper: Addr,
        claim_id: u128,
        partial_payout_bps: Option<u32>,
        reply: Reply,
    ) -> (r: Result<Step<ClaimResult>, Error>)
        requires
            old(self)@.claim_fits(claim_id, partial_payout_bps, reply),
        ensures
            r == answer(
                old(self)@.process_claim(now, keeper, claim_id, partial_payout_bps, reply),
            ),
            final(self)@ == after(
                old(self)@,
                old(self)@.process_claim(now, keeper, claim_id, partial_payout_bps, reply),
            ),
    {
        match self.require_keeper(&keeper) {
            Err(e) => {
                return Err(e);
            },
            Ok(()) => {},
        }
        self.demand(keeper);
        let r = self.process_inner(now, claim_id, partial_payout_bps, reply, 0);
        match r {
            Ok(Step::Done(_)) => {},
            _ => {
                self.withdraw_demand();
                assert(self@ =~= old(self)@);
            },
        }
        r
    }

    /// Settle several claims at once: all of them are processed, or none where
    /// one cannot be.
    pub fn batch_process_claims(
        &mut self,
        now: u64,
        keeper: Addr,
        claim_ids: &Vec<u128>,
        partial_payout_bps: Option<u32>,
        replies: &Vec<Reply>,
    ) -> (r: Result<Step<Vec<(u128, ClaimResult)>>, Error>)
        requires
            forall|i: int|
                #![trigger claim_ids@[i]]
                0 <= i < batch_count(claim_ids@.len()) ==> old(self)@.claim_fits(
                    claim_ids@[i],
                    partial_payout_bps,
                    reply_at(replies@, i),
                ),
        ensures
            match old(self)@.batch_process_claims(
                now,
                keeper,
                claim_ids@,
                partial_payout_bps,
                replies@,
            ) {
                Err(e) => r == Err::<Step<Vec<(u128, ClaimResult)>>, Error>(e) && final(self)@
                    == old(self)@,
                Ok((s, Step::Ask { item, question })) => r == Ok::<_, Error>(
                    Step::<Vec<(u128, ClaimResult)>>::Ask { item, question },
                ) && final(self)@ == s && s == old(self)@,
                Ok((s, Step::Done(results))) => r matches Ok(Step::Done(v)) && v@ == results
                    && final(self)@ == s,
            },
    {
        match self.require_keeper(&keeper) {
            Err(e) => {
                return Err(e);
            },
            Ok(()) => {},
        }
        let count: usize = clamp_batch(claim_ids.len());
        let mut work = self.duplicate();
        work.demand(keeper);
        let ghost start = work@;
        let mut results: Vec<(u128, ClaimResult)> = Vec::new();
        let mut i: usize = 0;
        while i < count
            invariant
                i <= count <= claim_ids@.len(),
                count <= MAX_BATCH_SIZE,
                count == batch_count(claim_ids@.len()),
                self@ == old(self)@,
                self@.keeper_error(keeper) is None,
                start == self@.demand(keeper),
                work@.covers_kept(start),
                forall|i: int|
                    #![trigger claim_ids@[i]]
                    0 <= i < count ==> start.claim_fits(
                        claim_ids@[i],
                        partial_payout_bps,
                        reply_at(replies@, i),
                    ),
                start.process_items(now, claim_ids@, partial_payout_bps, replies@, i as nat) == Ok::<
                    _,
                    Error,
                >((work@, Step::Done(results@))),
            decreases count - i,
        {
            let reply = get_reply(replies, i);
            let cid: u128 = claim_ids[i];
            match work.process_inner(now, cid, partial_payout_bps, reply, i) {
                Ok(Step::Done(result)) => {
                    results.push((cid, result));
                },
                Ok(Step::Ask { item, question }) => {
                    proof {
                        start.lemma_process_items_stop(
                            now,
                            claim_ids@,
                            partial_payout_bps,
                            replies@,
                            (i + 1) as nat,
                            count as nat,
                        );
                    }
                    return Ok(Step::Ask { item, question });
                },
                Err(e) => {
                    proof {
                        start.lemma_process_items_stop(
                            now,
                            claim_ids@,
                            partial_payout_bps,
                            replies@,
                            (i + 1) as nat,
                            count as nat,
                        );
                    }
                    return Err(e);
                },
            }
            i += 1;
        }
        work.emit(
            Event::BatchClaimsProcessed(BatchClaimsProcessed { keeper, count: count as u32 }),
        );
        *self = work;
        Ok(Step::Done(results))
    }

    /// Process a policy without a submitted claim: settle it by its trigger, or
    /// let it expire where it is over. What is already settled stays as it is.
    pub fn auto_process(
        &mut self,
        now: u64,
        keeper: Addr,
        policy_id: u128,
        partial_payout_bps: Option<u32>,
        reply: Reply,
    ) -> (r: Result<Step<ClaimResult>, Error>)
        requires
            old(self)@.claim_counter() < u128::MAX,
            old(self)@.policy_claims.contains_key(policy_id) ==> old(self)@.claims.contains_key(
                old(self)@.policy_claims[policy_id],
            ),
            old(self)@.auto_fits(policy_id, partial_payout_bps, reply),
        ensures
            r == answer(
                old(self)@.auto_process(now, keeper, policy_id, partial_payout_bps, reply),
            ),
            final(self)@ == after(
                old(self)@,
                old(self)@.auto_process(now, keeper, policy_id, partial_payout_bps, reply),
            ),
    {
        match self.require_keeper(&keeper) {
            Err(e) => {
                return Err(e);
            },
            Ok(()) => {},
        }
        let existing: Option<Claim> = match self.policy_claims.get(&policy_id) {
            Some(id) => match self.claims.get(id) {
                Some(c) => Some(*c),
                None => None,
            },
            None => None,
        };
        match existing {
            Some(c) => {
                if c.status != ClaimStatus::Pending {
                    self.demand(keeper);
                    return Ok(Step::Done(ClaimResult::AlreadyProcessed));
                }
            },
            None => {},
        }
        let policy_engine = match self.policy_engine {
            Some(a) => a,
            None => {
                return Err(Error::NotInitialized);
            },
        };
        let policy = match reply.policy {
            Some(p) => p,
            None => {
                return Ok(
                    Step::Ask { item: 0, question: Question::Policy { policy_engine, policy_id } },
                );
            },
        };
        match policy.status {
            PolicyStatus::Claimed => {
                self.demand(keeper);
                return Ok(Step::Done(ClaimResult::AlreadyClaimed));
            },
            PolicyStatus::Expired => {
                self.demand(keeper);
                return Ok(Step::Done(ClaimResult::Expired));
            },
            PolicyStatus::Cancelled => {
                self.demand(keeper);
                return Ok(Step::Done(ClaimResult::PolicyNotActive));
            },
            PolicyStatus::Active => {},
        }
        if now >= policy.end_time {
            let risk_pool = match self.risk_pool {
                Some(a) => a,
                None => {
                    return Err(Error::NotInitialized);
                },
            };
            self.demand(keeper);
            self.send(Effect::ExpirePolicy { policy_engine, policy_id });
            self.send(Effect::ReleaseForExpiry { risk_pool, policy_id });
            return Ok(Step::Done(ClaimResult::Expired));
        }
        if self.oracle_verifier.is_none() || self.risk_pool.is_none() {
            return Err(Error::NotInitialized);
        }
        let met = match reply.trigger {
            Some(b) => b,
            None => {
                return Ok(Step::Ask { item: 0, question: self.trigger_question(&policy) });
            },
        };
        let verified = match existing {
            Some(c) => c.identity_verified,
            None => false,
        };
        if met && !verified && self.identity_requirements.contains(&policy.product_id) {
            return Err(Error::IdentityVerificationRequired);
        }
        self.demand(keeper);
        let claim = match existing {
            Some(c) => c,
            None => {
                let id: u128 = self.open_claim(
                    now,
                    policy_id,
                    policy.policyholder,
                    policy.coverage_amount,
                );
                match self.load_claim(id) {
                    Ok(c) => c,
                    Err(e) => {
                        return Err(e);
                    },
                }
            },
        };
        self.evaluate_and_settle(now, claim, &policy, partial_payout_bps, reply.trigger, 0)
    }

    /// Start an automatic run over the first claims of the queue.
    pub fn batch_auto_process(&mut self, caller: Addr, limit: u32) -> (r: Result<BatchRun, Error>)
        ensures
            match old(self)@.keeper_error(caller) {
                Some(e) => r == Err::<BatchRun, Error>(e) && final(self)@ == old(self)@,
                None => final(self)@ == old(self)@.demand(caller) && (r matches Ok(run)
                    && run.queue@ == old(self)@.batch_queue(limit) && run.next == 0
                    && run.results@ == Seq::<(u128, ClaimResult)>::empty() && run.in_order()),
            },
    {
        match self.require_keeper(&caller) {
            Err(e) => {
                return Err(e);
            },
            Ok(()) => {},
        }
        self.demand(caller);
        let capped: u32 = if limit > MAX_BATCH_SIZE {
            MAX_BATCH_SIZE
        } else {
            limit
        };
        let count: usize = if self.pending_claims.len() < capped as usize {
            self.pending_claims.len()
        } else {
            capped as usize
        };
        let mut queue: Vec<u128> = Vec::new();
        let mut i: usize = 0;
        while i < count
            invariant
                i <= count <= self.pending_claims@.len(),
                queue@ == self.pending_claims@.take(i as int),
            decreases count - i,
        {
            queue.push(self.pending_claims[i]);
            i += 1;
            assert(queue@ =~= self.pending_claims@.take(i as int));
        }
        Ok(BatchRun { queue, next: 0, results: Vec::new() })
    }

    /// Dispute a claim that is pending, rejected or partially paid. Only its
    /// claimant can. A disputed claim leaves the queue.
    pub fn dispute_claim(&mut self, claimant: Addr, claim_id: u128, reason: Sym) -> (r: Result<
        (),
        Error,
    >)
        ensures
            r == answer(old(self)@.dispute_claim(claimant, claim_id, reason)),
            final(self)@ == after(old(self)@, old(self)@.dispute_claim(claimant, claim_id, reason)),
    {
        let mut claim = match self.load_claim(claim_id) {
            Ok(c) => c,
            Err(e) => {
                return Err(e);
            },
        };
        if !claim.claimant.same(&claimant) {
            return Err(Error::Unauthorized);
        }
        if claim.status != ClaimStatus::Pending && claim.status != ClaimStatus::Rejected
            && claim.status != ClaimStatus::PartiallyPaid {
            return Err(Error::AlreadyProcessed);
        }
        self.demand(claimant);
        claim.status = ClaimStatus::Disputed;
        claim.dispute_reason = Some(reason);
        self.store_claim(claim_id, claim);
        self.dequeue(claim_id);
        self.emit(Event::ClaimDisputed(ClaimDisputed { claim_id, claimant, reason }));
        Ok(())
    }

    /// End a dispute: the claim is pending again and back in the queue.
    pub fn resolve_dispute(&mut self, admin: Addr, claim_id: u128) -> (r: Result<(), Error>)
        ensures
            r == answer(old(self)@.resolve_dispute(admin, claim_id)),
            final(self)@ == after(old(self)@, old(self)@.resolve_dispute(admin, claim_id)),
    {
        match self.require_admin(&admin) {
            Err(e) => {
                return Err(e);
            },
            Ok(()) => {},
        }
        let mut claim = match self.load_claim(claim_id) {
            Ok(c) => c,
            Err(e) => {
                return Err(e);
            },
        };
        if claim.status != ClaimStatus::Disputed {
            return Err(Error::AlreadyProcessed);
        }
        claim.status = ClaimStatus::Pending;
        claim.dispute_reason = None;
        self.demand(admin);
        self.store_claim(claim_id, claim);
        self.pending_claims.push(claim_id);
        self.emit(Event::ClaimResolved(ClaimResolved { claim_id, resolver: admin }));
        assert(self@ =~= after(old(self)@, old(self)@.resolve_dispute(admin, claim_id)));
        Ok(())
    }

    /// The claim with the given number.
    pub fn get_claim(&self, claim_id: u128) -> (r: Result<Claim, Error>)
        ensures
            match r {
                Ok(c) => self@.claims.contains_key(claim_id) && c == self@.claims[claim_id],
                Err(e) => !self@.claims.contains_key(claim_id) && e == Error::ClaimNotFound,
            },
    {
        self.load_claim(claim_id)
    }

    /// The claim of a policy, if it has one.
    pub fn get_claim_id_for_policy(&self, policy_id: u128) -> (r: Option<u128>)
        ensures
            r == if self@.policy_claims.contains_key(policy_id) {
                Some(self@.policy_claims[policy_id])
            } else {
                None
            },
    {
        match self.policy_claims.get(&policy_id) {
            Some(id) => Some(*id),
            None => None,
        }
    }

    /// Have a paid claim paid in installments that together do not exceed the
    /// coverage.
    pub fn schedule_installments(
        &mut self,
        now: u64,
        caller: Addr,
        claim_id: u128,
        amount_per_installment: i128,
        num_installments: u32,
        interval_seconds: u64,
    ) -> (r: Result<(), Error>)
        ensures
            r == answer(
                old(self)@.schedule_installments(
                    now,
                    caller,
                    claim_id,
                    amount_per_installment,
                    num_installments,
                    interval_seconds,
                ),
            ),
            final(self)@ == after(
                old(self)@,
                old(self)@.schedule_installments(
                    now,
                    caller,
                    claim_id,
                    amount_per_installment,
                    num_installments,
                    interval_seconds,
                ),
            ),
    {
        match self.require_keeper(&caller) {
            Err(e) => {
                return Err(e);
            },
            Ok(()) => {},
        }
        let mut claim = match self.load_claim(claim_id) {
            Ok(c) => c,
            Err(e) => {
                return Err(e);
            },
        };
        if claim.status != ClaimStatus::Paid && claim.status != ClaimStatus::PartiallyPaid {
            return Err(Error::InvalidInput);
        }
        let total_amount: i128 = saturating_mul(amount_per_installment, num_installments as i128);
        if total_amount > claim.coverage_amount {
            return Err(Error::InvalidInput);
        }
        let first_installment_at: u64 = now.saturating_add(interval_seconds);
        claim.installments = Some(
            InstallmentSchedule {
                total_amount,
                amount_per_installment,
                num_installments,
                interval_seconds,
                first_installment_at,
                paid_count: 0,
            },
        );
        self.demand(caller);
        self.store_claim(claim_id, claim);
        self.emit(
            Event::InstallmentPayoutScheduled(
                InstallmentPayoutScheduled {
                    claim_id,
                    policy_id: claim.policy_id,
                    claimant: claim.claimant,
                    total_amount,
                    num_installments,
                    interval_seconds,
                    first_installment_at,
                },
            ),
        );
        Ok(())
    }

    /// Whether the installments that a claimant asks for can be counted, where
    /// nothing speaks against the request before that.
    pub fn installment_computable(&self, now: u64, claimant: Addr, claim_id: u128) -> (r: bool)
        ensures
            r == self@.interval_ok(now, claimant, claim_id),
    {
        if self.paused {
            return true;
        }
        match self.claims.get(&claim_id) {
            Some(c) => match c.installments {
                Some(s) => !c.claimant.same(&claimant) || s.paid_count >= s.num_installments || now
                    < s.first_installment_at || s.interval_seconds > 0,
                None => true,
            },
            None => true,
        }
    }

    /// Pay the claimant the installments that have fallen due.
    pub fn claim_installment(&mut self, now: u64, claimant: Addr, claim_id: u128) -> (r: Result<
        i128,
        Error,
    >)
        requires
            old(self)@.interval_ok(now, claimant, claim_id),
        ensures
            r == answer(old(self)@.claim_installment(now, claimant, claim_id)),
            final(self)@ == after(
                old(self)@,
                old(self)@.claim_installment(now, claimant, claim_id),
            ),
    {
        if self.paused {
            return Err(Error::Paused);
        }
        let mut claim = match self.load_claim(claim_id) {
            Ok(c) => c,
            Err(e) => {
                return Err(e);
            },
        };
        if !claim.claimant.same(&claimant) {
            return Err(Error::Unauthorized);
        }
        let mut schedule = match claim.installments {
            Some(s) => s,
            None => {
                return Err(Error::InvalidInput);
            },
        };
        if schedule.paid_count >= schedule.num_installments {
            return Err(Error::InvalidInput);
        }
        let due: u32 = if now >= schedule.first_installment_at {
            let passed: u64 = ((now - schedule.first_installment_at)
                / schedule.interval_seconds).saturating_add(1);
            if passed <= schedule.num_installments as u64 {
                passed as u32
            } else {
                schedule.num_installments
            }
        } else {
            0
        };
        assert(due == installments_due(schedule, now));
        if due <= schedule.paid_count {
            return Err(Error::InvalidInput);
        }
        let amount: i128 = saturating_mul(
            schedule.amount_per_installment,
            (due - schedule.paid_count) as i128,
        );
        let risk_pool = match self.risk_pool {
            Some(a) => a,
            None => {
                return Err(Error::NotInitialized);
            },
        };
        let policy_id: u128 = claim.policy_id;
        let total_installments: u32 = schedule.num_installments;
        self.demand(claimant);
        self.send(Effect::ReleaseForClaim { risk_pool, policy_id });
        schedule.paid_count = due;
        claim.installments = Some(schedule);
        self.store_claim(claim_id, claim);
        self.emit(
            Event::InstallmentPaid(
                InstallmentPaid { claim_id, claimant, amount, paid_count: due, total_installments },
            ),
        );
        Ok(amount)
    }

    /// The claims in the queue.
    pub fn get_pending_claims(&self) -> (r: &Vec<u128>)
        ensures
            r@ == self@.pending_claims,
    {
        &self.pending_claims
    }

    /// The administrator.
    pub fn get_admin(&self) -> (r: Result<Addr, Error>)
        ensures
            r == match self@.admin {
                Some(a) => Ok(a),
                None => Err(Error::NotInitialized),
            },
    {
        match self.admin {
            Some(a) => Ok(a),
            None => Err(Error::NotInitialized),
        }
    }

    /// The version of the storage layout; 1 before any upgrade.
    pub fn get_version(&self) -> (r: u32)
        ensures
            r == self@.stored_version(),
    {
        match self.version {
            Some(v) => v,
            None => 1,
        }
    }

    /// Whether the processor is paused.
    pub fn is_paused(&self) -> (r: bool)
        ensures
            r == self@.paused,
    {
        self.paused
    }

    /// Replace the code and note the new version.
    fn install(&mut self, new_wasm_hash: [u8; 32], new_version: u32)
        ensures
            final(self)@ == old(self)@.upgraded(new_wasm_hash, new_version),
    {
        let old_version: u32 = self.get_version();
        self.version = Some(new_version);
        assert(self@ =~= (ProcessorState { version: Some(new_version), ..old(self)@ }));
        self.send(Effect::ReplaceCode(new_wasm_hash));
        self.emit(Event::ContractUpgraded(ContractUpgraded { old_version, new_version }));
    }

    /// Replace the processor's code: at once, or where guardians are set, once
    /// enough of them have approved.
    pub fn upgrade(&mut self, admin: Addr, new_wasm_hash: [u8; 32], new_version: u32) -> (r: Result<
        (),
        Error,
    >)
        ensures
            r == answer(old(self)@.upgrade(admin, new_wasm_hash, new_version)),
            final(self)@ == after(
                old(self)@,
                old(self)@.upgrade(admin, new_wasm_hash, new_version),
            ),
    {
        match self.require_admin(&admin) {
            Err(e) => {
                return Err(e);
            },
            Ok(()) => {},
        }
        if new_version <= self.get_version() {
            return Err(Error::InvalidVersion);
        }
        if self.guardian_threshold == 0 {
            self.demand(admin);
            self.install(new_wasm_hash, new_version);
            return Ok(());
        }
        self.pending_upgrade = Some(
            PendingUpgrade { new_wasm_hash, new_version, approvals: Vec::new() },
        );
        self.demand(admin);
        assert(self@ =~= after(old(self)@, old(self)@.upgrade(admin, new_wasm_hash, new_version)));
        Ok(())
    }

    /// Set the guardians and how many of them have to approve a critical
    /// action; zero for none.
    pub fn set_guardians(&mut self, admin: Addr, guardians: Vec<Addr>, threshold: u32) -> (r: Result<
        (),
        Error,
    >)
        ensures
            r == answer(old(self)@.set_guardians(admin, guardians@, threshold)),
            final(self)@ == after(
                old(self)@,
                old(self)@.set_guardians(admin, guardians@, threshold),
            ),
    {
        match self.require_admin(&admin) {
            Err(e) => {
                return Err(e);
            },
            Ok(()) => {},
        }
        if threshold as u64 > guardians.len() as u64 {
            return Err(Error::InvalidThreshold);
        }
        let roster = Roster::of(&guardians);
        self.guardians = guardians;
        self.guardian_threshold = threshold;
        self.demand(admin);
        self.emit(Event::GuardiansUpdated { guardians: roster, threshold });
        assert(self@ =~= after(old(self)@, old(self)@.set_guardians(admin, guardians@, threshold)));
        Ok(())
    }

    /// The guardians.
    pub fn get_guardians(&self) -> (r: &Vec<Addr>)
        ensures
            r@ == self@.guardians,
    {
        &self.guardians
    }

    /// How many guardians have to approve a critical action.
    pub fn get_guardian_threshold(&self) -> (r: u32)
        ensures
            r == self@.guardian_threshold,
    {
        self.guardian_threshold
    }

    /// The upgrade that waits for approvals, if there is one.
    pub fn get_pending_upgrade(&self) -> (r: Option<&PendingUpgrade>)
        ensures
            match r {
                Some(p) => self@.pending_upgrade == Some(p@),
                None => self@.pending_upgrade is None,
            },
    {
        self.pending_upgrade.as_ref()
    }

    /// Approve the pending upgrade as a guardian. The approval that reaches the
    /// threshold replaces the code.
    pub fn approve_upgrade(&mut self, guardian: Addr, new_wasm_hash: [u8; 32]) -> (r: Result<
        (),
        Error,
    >)
        requires
            old(self)@.pending_upgrade matches Some(p) ==> p.approvals.len() < u32::MAX,
        ensures
            r == answer(old(self)@.approve_upgrade(guardian, new_wasm_hash)),
            final(self)@ == after(old(self)@, old(self)@.approve_upgrade(guardian, new_wasm_hash)),
    {
        if index_of(&self.guardians, &guardian).is_none() {
            return Err(Error::NotGuardian);
        }
        match &self.pending_upgrade {
            Some(p) => {
                if !same_hash(&p.new_wasm_hash, &new_wasm_hash) {
                    return Err(Error::NoPendingUpgrade);
                }
                if index_of(&p.approvals, &guardian).is_some() {
                    return Err(Error::AlreadyApprovedAction);
                }
            },
            None => {
                return Err(Error::NoPendingUpgrade);
            },
        }
        let mut taken: Option<PendingUpgrade> = None;
        std::mem::swap(&mut taken, &mut self.pending_upgrade);
        let mut pending = taken.unwrap();
        pending.approvals.push(guardian);
        let approvals: u32 = pending.approvals.len() as u32;
        let threshold: u32 = self.guardian_threshold;
        assert(self@ =~= (ProcessorState { pending_upgrade: None, ..old(self)@ }));
        self.demand(guardian);
        self.emit(
            Event::UpgradeApproved(
                UpgradeApproved { new_wasm_hash, approver: guardian, approvals, threshold },
            ),
        );
        if approvals >= threshold {
            self.install(new_wasm_hash, pending.new_version);
        } else {
            self.pending_upgrade = Some(pending);
        }
        assert(self@ =~= after(old(self)@, old(self)@.approve_upgrade(guardian, new_wasm_hash)));
        Ok(())
    }

    /// Propose a new administrator: armed at once, or where guardians are set,
    /// once enough of them have approved. Refused while a transfer is armed, so
    /// that the timelock cannot be restarted.
    pub fn propose_new_admin(&mut self, now: u64, admin: Addr, new_admin: Addr) -> (r: Result<
        (),
        Error,
    >)
        ensures
            r == answer(old(self)@.propose_new_admin(now, admin, new_admin)),
            final(self)@ == after(old(self)@, old(self)@.propose_new_admin(now, admin, new_admin)),
    {
        match self.require_admin(&admin) {
            Err(e) => {
                return Err(e);
            },
            Ok(()) => {},
        }
        match Self::validate_stellar_address(&new_admin) {
            Err(e) => {
                return Err(e);
            },
            Ok(()) => {},
        }
        if self.pending_admin.is_some() {
            return Err(Error::AdminTransferPending);
        }
        if self.guardian_threshold == 0 {
            self.pending_admin = Some(new_admin);
            self.pending_admin_since = Some(now);
        } else {
            self.pending_admin_change = Some(
                PendingAdminChange { new_admin, approvals: Vec::new() },
            );
        }
        self.demand(admin);
        assert(self@ =~= after(old(self)@, old(self)@.propose_new_admin(now, admin, new_admin)));
        Ok(())
    }

    /// Approve the proposed administrator as a guardian. The approval that
    /// reaches the threshold arms the transfer and starts its timelock.
    pub fn approve_admin_change(&mut self, now: u64, guardian: Addr, new_admin: Addr) -> (r: Result<
        (),
        Error,
    >)
        ensures
            r == answer(old(self)@.approve_admin_change(now, guardian, new_admin)),
            final(self)@ == after(
                old(self)@,
                old(self)@.approve_admin_change(now, guardian, new_admin),
            ),
    {
        if index_of(&self.guardians, &guardian).is_none() {
            return Err(Error::NotGuardian);
        }
        match &self.pending_admin_change {
            Some(p) => {
                if !p.new_admin.same(&new_admin) {
                    return Err(Error::NoPendingUpgrade);
                }
                if index_of(&p.approvals, &guardian).is_some() {
                    return Err(Error::AlreadyApprovedAction);
                }
            },
            None => {
                return Err(Error::NoPendingUpgrade);
            },
        }
        let mut taken: Option<PendingAdminChange> = None;
        std::mem::swap(&mut taken, &mut self.pending_admin_change);
        let mut pending = taken.unwrap();
        pending.approvals.push(guardian);
        if pending.approvals.len() as u64 >= self.guardian_threshold as u64 {
            self.pending_admin = Some(new_admin);
            if self.pending_admin_since.is_none() {
                self.pending_admin_since = Some(now);
            }
        } else {
            self.pending_admin_change = Some(pending);
        }
        self.demand(guardian);
        assert(self@ =~= after(
            old(self)@,
            old(self)@.approve_admin_change(now, guardian, new_admin),
        ));
        Ok(())
    }

    /// Take over as administrator, once the timelock of the transfer is over.
    pub fn accept_admin(&mut self, now: u64, admin: Addr) -> (r: Result<(), Error>)
        ensures
            r == answer(old(self)@.accept_admin(now, admin)),
            final(self)@ == after(old(self)@, old(self)@.accept_admin(now, admin)),
    {
        match self.pending_admin {
            Some(pending) => {
                if !pending.same(&admin) {
                    return Err(Error::Unauthorized);
                }
            },
            None => {
                return Err(Error::Unauthorized);
            },
        }
        if !timelock_expired(self.get_pending_admin_since(), now) {
            return Err(Error::AdminTimelockNotExpired);
        }
        self.admin = Some(admin);
        self.pending_admin = None;
        self.pending_admin_since = None;
        self.demand(admin);
        self.emit(Event::AdminUpdated(AdminUpdated { new_admin: admin }));
        assert(self@ =~= after(old(self)@, old(self)@.accept_admin(now, admin)));
        Ok(())
    }

    /// The administrator that an armed transfer names.
    pub fn get_pending_admin(&self) -> (r: Option<Addr>)
        ensures
            r == self@.pending_admin,
    {
        self.pending_admin
    }

    /// When the pending admin transfer was armed; 0 where none is.
    pub fn get_pending_admin_since(&self) -> (r: u64)
        ensures
            r == or_default(self@.pending_admin_since, 0),
    {
        match self.pending_admin_since {
            Some(t) => t,
            None => 0,
        }
    }

    /// How long a claim is pending before it can be escalated, in seconds.
    pub fn get_escalation_threshold(&self) -> (r: u64)
        ensures
            r == self@.escalation_after(),
    {
        match self.escalation_threshold {
            Some(t) => t,
            None => DEFAULT_ESCALATION_THRESHOLD,
        }
    }

    /// How long a claim has been waiting, and whether it can be escalated.
    pub fn get_claim_age(&self, now: u64, claim_id: u128) -> (r: Result<ClaimAgeInfo, Error>)
        ensures
            r == if self@.claims.contains_key(claim_id) {
                Ok(self@.age_info(now, claim_id))
            } else {
                Err(Error::ClaimNotFound)
            },
    {
        let claim = match self.load_claim(claim_id) {
            Ok(c) => c,
            Err(e) => {
                return Err(e);
            },
        };
        let threshold: u64 = self.get_escalation_threshold();
        let is_pending = claim.status == ClaimStatus::Pending;
        let pending_for: u64 = if is_pending {
            now.saturating_sub(claim.submitted_at)
        } else {
            0
        };
        Ok(
            ClaimAgeInfo {
                claim_id,
                status: claim.status,
                submitted_at: claim.submitted_at,
                pending_for,
                escalation_threshold: threshold,
                escalatable: is_pending && pending_for >= threshold,
                seconds_until_escalatable: if !is_pending {
                    0
                } else {
                    threshold.saturating_sub(pending_for)
                },
            },
        )
    }

    /// How long an approved payout is held back, in seconds.
    pub fn get_payout_delay(&self) -> (r: u64)
        ensures
            r == self@.payout_delay,
    {
        self.payout_delay
    }

    /// The configuration of the fraud detector, if it is on.
    pub fn get_fraud_config(&self) -> (r: Option<FraudConfig>)
        ensures
            r == self@.fraud_config,
    {
        self.fraud_config
    }

    /// The fraud detector's judgement on a claim that it flagged and let pass.
    pub fn get_fraud_record(&self, claim_id: u128) -> (r: Option<FraudRecord>)
        ensures
            r == if self@.fraud_records.contains_key(claim_id) {
                Some(self@.fraud_records[claim_id])
            } else {
                None
            },
    {
        match self.fraud_records.get(&claim_id) {
            Some(x) => Some(*x),
            None => None,
        }
    }

    /// What the fraud detector remembers of a claimant.
    pub fn get_claimant_history(&self, claimant: Addr) -> (r: ClaimantHistory)
        ensures
            r == self@.history_of(claimant),
    {
        self.claimant_history(&claimant)
    }

    /// Pay an approved claim out, once its payout delay is over. Anyone can
    /// have this done. Unless the claimant's identity is verified, the policy
    /// tells whether its product asks for that.
    pub fn claim_payout(&mut self, now: u64, claim_id: u128, policy: Option<Policy>) -> (r: Result<
        Step<i128>,
        Error,
    >)
        ensures
            r == answer(old(self)@.claim_payout(now, claim_id, policy)),
            final(self)@ == after(old(self)@, old(self)@.claim_payout(now, claim_id, policy)),
    {
        if self.paused {
            return Err(Error::Paused);
        }
        let mut claim = match self.load_claim(claim_id) {
            Ok(c) => c,
            Err(e) => {
                return Err(e);
            },
        };
        match claim.payout_ready_at {
            Some(t) => {
                if now < t {
                    return Err(Error::PayoutDelayNotElapsed);
                }
            },
            None => {
                return Err(Error::PayoutDelayNotElapsed);
            },
        }
        let paid_amount: i128 = match claim.paid_amount {
            Some(a) => a,
            None => {
                return Err(Error::ClaimNotFound);
            },
        };
        let policy_engine = match self.policy_engine {
            Some(a) => a,
            None => {
                return Err(Error::NotInitialized);
            },
        };
        let risk_pool = match self.risk_pool {
            Some(a) => a,
            None => {
                return Err(Error::NotInitialized);
            },
        };
        let policy_id: u128 = claim.policy_id;
        if !claim.identity_verified {
            match policy {
                Some(p) => {
                    if self.identity_requirements.contains(&p.product_id) {
                        return Err(Error::IdentityVerificationRequired);
                    }
                },
                None => {
                    return Ok(
                        Step::Ask { item: 0, question: Question::Policy { policy_engine, policy_id } },
                    );
                },
            }
        }
        claim.payout_ready_at = None;
        self.store_claim(claim_id, claim);
        self.send(Effect::PayPolicy { policy_engine, policy_id });
        self.send(Effect::ReleaseForClaim { risk_pool, policy_id });
        self.emit(Event::PayoutReleased { claim_id, policy_id, paid_amount });
        Ok(Step::Done(paid_amount))
    }

    /// Hand a claim that has been pending for too long to manual review. Anyone
    /// can have this done.
    pub fn escalate_claim(&mut self, now: u64, caller: Addr, claim_id: u128) -> (r: Result<
        (),
        Error,
    >)
        ensures
            r == answer(old(self)@.escalate_claim(now, caller, claim_id)),
            final(self)@ == after(old(self)@, old(self)@.escalate_claim(now, caller, claim_id)),
    {
        if self.paused {
            return Err(Error::Paused);
        }
        let mut claim = match self.load_claim(claim_id) {
            Ok(c) => c,
            Err(e) => {
                return Err(e);
            },
        };
        if claim.status != ClaimStatus::Pending {
            return Err(Error::NotEscalatable);
        }
        let pending_for: u64 = now.saturating_sub(claim.submitted_at);
        if pending_for < self.get_escalation_threshold() {
            return Err(Error::NotEscalatable);
        }
        claim.status = ClaimStatus::Escalated;
        self.demand(caller);
        self.store_claim(claim_id, claim);
        self.dequeue(claim_id);
        self.emit(
            Event::ClaimEscalated(
                ClaimEscalated {
                    claim_id,
                    policy_id: claim.policy_id,
                    claimant: claim.claimant,
                    pending_for,
                    escalated_by: caller,
                },
            ),
        );
        Ok(())
    }

    /// The queued claims that have been pending for too long.
    pub fn get_escalatable_claims(&self, now: u64) -> (r: Vec<u128>)
        ensures
            r@ == self@.pending_claims.filter(self@.is_overdue(now)),
    {
        let ghost overdue_rule = self@.is_overdue(now);
        let threshold: u64 = self.get_escalation_threshold();
        let mut overdue: Vec<u128> = Vec::new();
        let mut i: usize = 0;
        proof {
            reveal(Seq::filter);
        }
        while i < self.pending_claims.len()
            invariant
                i <= self.pending_claims@.len(),
                threshold == self@.escalation_after(),
                overdue_rule == self@.is_overdue(now),
                overdue@ == self.pending_claims@.take(i as int).filter(overdue_rule),
            decreases self.pending_claims.len() - i,
        {
            proof {
                reveal(Seq::filter);
                assert(self.pending_claims@.take(i + 1).drop_last()
                    =~= self.pending_claims@.take(i as int));
            }
            let id: u128 = self.pending_claims[i];
            match self.claims.get(&id) {
                Some(claim) => {
                    if claim.status == ClaimStatus::Pending && now.saturating_sub(
                        claim.submitted_at,
                    ) >= threshold {
                        overdue.push(id);
                    }
                },
                None => {},
            }
            i += 1;
        }
        assert(self.pending_claims@.take(i as int) =~= self.pending_claims@);
        overdue
    }

    /// Note that a claimant's identity was verified for a claim.
    pub fn verify_claimant_identity(
        &mut self,
        now: u64,
        admin: Addr,
        claim_id: u128,
        id_type: Sym,
    ) -> (r: Result<(), Error>)
        ensures
            r == answer(old(self)@.verify_claimant_identity(now, admin, claim_id, id_type)),
            final(self)@ == after(
                old(self)@,
                old(self)@.verify_claimant_identity(now, admin, claim_id, id_type),
            ),
    {
        match self.require_admin(&admin) {
            Err(e) => {
                return Err(e);
            },
            Ok(()) => {},
        }
        let mut claim = match self.load_claim(claim_id) {
            Ok(c) => c,
            Err(e) => {
                return Err(e);
            },
        };
        claim.identity_verified = true;
        claim.verification_type = Some(id_type);
        claim.verification_time = Some(now);
        self.demand(admin);
        self.store_claim(claim_id, claim);
        self.emit(Event::IdentityVerified { claim_id, id_type, now });
        Ok(())
    }

    /// The kind of identity that claims on a product ask for, if any.
    pub fn get_identity_requirement(&self, product_id: u128) -> (r: Option<Sym>)
        ensures
            r == if self@.identity_requirements.contains_key(product_id) {
                Some(self@.identity_requirements[product_id])
            } else {
                None
            },
    {
        match self.identity_requirements.get(&product_id) {
            Some(x) => Some(*x),
            None => None,
        }
    }

    /// Whether the claimant's identity was verified for a claim.
    pub fn is_identity_verified(&self, claim_id: u128) -> (r: bool)
        ensures
            r == (self@.claims.contains_key(claim_id) && self@.claims[claim_id].identity_verified),
    {
        match self.claims.get(&claim_id) {
            Some(c) => c.identity_verified,
            None => false,
        }
    }

    /// Halt the submission and the settlement of claims.
    pub fn pause(&mut self, admin: Addr) -> (r: Result<(), Error>)
        ensures
            r == answer(old(self)@.set_paused(admin, true)),
            final(self)@ == after(old(self)@, old(self)@.set_paused(admin, true)),
    {
        match self.require_admin(&admin) {
            Err(e) => {
                return Err(e);
            },
            Ok(()) => {},
        }
        self.paused = true;
        self.demand(admin);
        self.emit(Event::Paused { admin });
        assert(self@ =~= after(old(self)@, old(self)@.set_paused(admin, true)));
        Ok(())
    }

    /// End the pause.
    pub fn resume(&mut self, admin: Addr) -> (r: Result<(), Error>)
        ensures
            r == answer(old(self)@.set_paused(admin, false)),
            final(self)@ == after(old(self)@, old(self)@.set_paused(admin, false)),
    {
        match self.require_admin(&admin) {
            Err(e) => {
                return Err(e);
            },
            Ok(()) => {},
        }
        self.paused = false;
        self.demand(admin);
        self.emit(Event::Resumed { admin });
        assert(self@ =~= after(old(self)@, old(self)@.set_paused(admin, false)));
        Ok(())
    }

    /// Set how long a claim is pending before it can be escalated; at least an hour.
    pub fn set_escalation_threshold(&mut self, admin: Addr, threshold: u64) -> (r: Result<(), Error>)
        ensures
            r == answer(old(self)@.set_escalation_threshold(admin, threshold)),
            final(self)@ == after(old(self)@, old(self)@.set_escalation_threshold(admin, threshold)),
    {
        match self.require_admin(&admin) {
            Err(e) => {
                return Err(e);
            },
            Ok(()) => {},
        }
        if threshold < MIN_ESCALATION_THRESHOLD {
            return Err(Error::InvalidThresholdValue);
        }
        self.escalation_threshold = Some(threshold);
        self.demand(admin);
        self.emit(Event::EscalationThresholdUpdated(EscalationThresholdUpdated { threshold }));
        assert(self@ =~= after(old(self)@, old(self)@.set_escalation_threshold(admin, threshold)));
        Ok(())
    }

    /// Set how long after the end of a policy a claim can be submitted: at least an
    /// hour, or zero for not at all.
    pub fn set_claim_deadline(&mut self, admin: Addr, deadline: u64) -> (r: Result<(), Error>)
        ensures
            r == answer(old(self)@.set_claim_deadline(admin, deadline)),
            final(self)@ == after(old(self)@, old(self)@.set_claim_deadline(admin, deadline)),
    {
        match self.require_admin(&admin) {
            Err(e) => {
                return Err(e);
            },
            Ok(()) => {},
        }
        if deadline != 0 && deadline < MIN_ESCALATION_THRESHOLD {
            return Err(Error::InvalidThresholdValue);
        }
        self.claim_deadline = Some(deadline);
        self.demand(admin);
        self.emit(Event::ClaimDeadlineUpdated(ClaimDeadlineUpdated { deadline }));
        assert(self@ =~= after(old(self)@, old(self)@.set_claim_deadline(admin, deadline)));
        Ok(())
    }

    /// Set how long an approved payout is held back; zero for not at all.
    pub fn set_payout_delay(&mut self, admin: Addr, delay_seconds: u64) -> (r: Result<(), Error>)
        ensures
            r == answer(old(self)@.set_payout_delay(admin, delay_seconds)),
            final(self)@ == after(old(self)@, old(self)@.set_payout_delay(admin, delay_seconds)),
    {
        match self.require_admin(&admin) {
            Err(e) => {
                return Err(e);
            },
            Ok(()) => {},
        }
        self.payout_delay = delay_seconds;
        self.demand(admin);
        self.emit(Event::PayoutDelayUpdated(PayoutDelayUpdated { delay_seconds }));
        assert(self@ =~= after(old(self)@, old(self)@.set_payout_delay(admin, delay_seconds)));
        Ok(())
    }

    /// Configure the fraud detector, which is off until this is done.
    pub fn set_fraud_config(&mut self, admin: Addr, config: FraudConfig) -> (r: Result<(), Error>)
        ensures
            r == answer(old(self)@.set_fraud_config(admin, config)),
            final(self)@ == after(old(self)@, old(self)@.set_fraud_config(admin, config)),
    {
        match self.require_admin(&admin) {
            Err(e) => {
                return Err(e);
            },
            Ok(()) => {},
        }
        if config.fraud_threshold_score > MAX_FRAUD_SCORE {
            return Err(Error::InvalidInput);
        }
        self.fraud_config = Some(config);
        self.demand(admin);
        self.emit(Event::FraudConfigUpdated(
                FraudConfigUpdated {
                    rate_window_secs: config.rate_window_secs,
                    rate_score: config.rate_score,
                    burst_window_secs: config.burst_window_secs,
                    burst_count: config.burst_count,
                    burst_score: config.burst_score,
                    coverage_anomaly_multiplier: config.coverage_anomaly_multiplier,
                    coverage_score: config.coverage_score,
                    fraud_threshold_score: config.fraud_threshold_score,
                    mode: config.mode,
                },
            ));
        assert(self@ =~= after(old(self)@, old(self)@.set_fraud_config(admin, config)));
        Ok(())
    }

    /// Ask for a verified identity from those who claim on a product: without one
    /// their claims are not paid.
    pub fn require_identity_for_category(&mut self, admin: Addr, product_id: u128, id_type: Sym) -> (r: Result<(), Error>)
        ensures
            r == answer(old(self)@.require_identity_for_category(admin, product_id, id_type)),
            final(self)@ == after(old(self)@, old(self)@.require_identity_for_category(admin, product_id, id_type)),
    {
        match self.require_admin(&admin) {
            Err(e) => {
                return Err(e);
            },
            Ok(()) => {},
        }
        self.identity_requirements.insert(product_id, id_type);
        self.demand(admin);
        self.emit(Event::IdentityRequirementSet { product_id, id_type });
        assert(self@ =~= after(old(self)@, old(self)@.require_identity_for_category(admin, product_id, id_type)));
        Ok(())
    }

    /// Note that claims on a product no longer ask for a verified identity.
    pub fn remove_identity_requirement(&mut self, admin: Addr, product_id: u128) -> (r: Result<(), Error>)
        ensures
            r == answer(old(self)@.remove_identity_requirement(admin, product_id)),
            final(self)@ == after(old(self)@, old(self)@.remove_identity_requirement(admin, product_id)),
    {
        match self.require_admin(&admin) {
            Err(e) => {
                return Err(e);
            },
            Ok(()) => {},
        }
        let _ = self.identity_requirements.remove(&product_id);
        self.demand(admin);
        self.emit(Event::IdentityRequirementRemoved { product_id });
        assert(self@ =~= after(old(self)@, old(self)@.remove_identity_requirement(admin, product_id)));
        Ok(())
    }

    /// Drop the upgrade that waits for approvals.
    pub fn cancel_pending_upgrade(&mut self, admin: Addr) -> (r: Result<(), Error>)
        ensures
            r == answer(old(self)@.cancel_pending_upgrade(admin)),
            final(self)@ == after(old(self)@, old(self)@.cancel_pending_upgrade(admin)),
    {
        match self.require_admin(&admin) {
            Err(e) => {
                return Err(e);
            },
            Ok(()) => {},
        }
        if self.pending_upgrade.is_none() {
            return Err(Error::NoPendingUpgrade);
        }
        self.pending_upgrade = None;
        self.demand(admin);
        assert(self@ =~= after(old(self)@, old(self)@.cancel_pending_upgrade(admin)));
        Ok(())
    }
}

/// An automatic run over the queue of pending claims. Each claim is attempted
/// on its own; one whose processing fails is passed over.
pub struct BatchRun {
    /// The claims that the run looks at, in order.
    pub queue: Vec<u128>,
    /// The position of the next claim to look at.
    pub next: usize,
    /// What became of the claims that were attempted with success.
    pub results: Vec<(u128, ClaimResult)>,
}

impl BatchRun {
    /// The claims whose outcome is recorded, in order.
    pub open spec fn recorded(self) -> Seq<u128> {
        self.results@.map_values(|p: (u128, ClaimResult)| p.0)
    }

    /// Whether the recorded claims are some of those looked at, in their order.
    pub open spec fn in_order(self) -> bool {
        &&& self.next <= self.queue@.len()
        &&& is_subsequence(self.recorded(), self.queue@.take(self.next as int))
    }

    /// Whether the claim looked at last is `claim_id` and nothing is recorded of
    /// it, while the recorded claims are some of those before it, in their order.
    pub open spec fn attempts(self, claim_id: u128) -> bool {
        &&& 0 < self.next <= self.queue@.len()
        &&& self.queue@[self.next - 1] == claim_id
        &&& is_subsequence(self.recorded(), self.queue@.take(self.next - 1))
    }

    /// The next claim to attempt and its policy, passing over claims that are
    /// no longer pending or were evaluated before; `None` at the end.
    pub fn next_claim(&mut self, processor: &ClaimsProcessor) -> (r: Option<(u128, u128)>)
        requires
            old(self).next <= old(self).queue@.len(),
        ensures
            final(self).queue@ == old(self).queue@,
            final(self).results@ == old(self).results@,
            old(self).next <= final(self).next <= final(self).queue@.len(),
            old(self).in_order() ==> final(self).in_order(),
            old(self).in_order() ==> (r matches Some((claim_id, _)) ==> final(self).attempts(
                claim_id,
            )),
            match r {
                Some((claim_id, policy_id)) => final(self).next > old(self).next && claim_id
                    == old(self).queue@[final(self).next - 1] && processor@.is_candidate(claim_id)
                    && policy_id == processor@.claims[claim_id].policy_id && (forall|j: int|
                    old(self).next <= j < final(self).next - 1 ==> !processor@.is_candidate(
                        #[trigger] old(self).queue@[j],
                    )),
                None => final(self).next == old(self).queue@.len() && (forall|j: int|
                    old(self).next <= j < old(self).queue@.len() ==> !processor@.is_candidate(
                        #[trigger] old(self).queue@[j],
                    )),
            },
    {
        let ghost recorded = self.recorded();
        while self.next < self.queue.len()
            invariant
                recorded == old(self).recorded(),
                old(self).in_order() ==> is_subsequence(
                    recorded,
                    self.queue@.take(self.next as int),
                ),
                self.queue@ == old(self).queue@,
                self.results@ == old(self).results@,
                old(self).next <= self.next <= self.queue@.len(),
                forall|j: int|
                    old(self).next <= j < self.next ==> !processor@.is_candidate(
                        #[trigger] old(self).queue@[j],
                    ),
            decreases self.queue.len() - self.next,
        {
            let claim_id: u128 = self.queue[self.next];
            let ghost seen = self.queue@.take(self.next as int);
            self.next = self.next + 1;
            assert(self.queue@.take(self.next as int).drop_last() =~= seen);
            assert(self.queue@.take(self.next - 1) =~= seen);
            assert(self.recorded() =~= recorded);
            match processor.claims.get(&claim_id) {
                Some(c) => {
                    if c.status == ClaimStatus::Pending && c.processed_at.is_none() {
                        return Some((claim_id, c.policy_id));
                    }
                },
                None => {},
            }
        }
        assert(self.recorded() =~= recorded);
        None
    }

    /// Note what became of an attempt; a failed one leaves no trace.
    pub fn record(&mut self, claim_id: u128, outcome: Option<ClaimResult>)
        ensures
            final(self).queue@ == old(self).queue@,
            final(self).next == old(self).next,
            final(self).results@ == match outcome {
                Some(result) => old(self).results@.push((claim_id, result)),
                None => old(self).results@,
            },
            old(self).attempts(claim_id) ==> final(self).in_order(),
    {
        let ghost recorded = self.recorded();
        proof {
            if self.attempts(claim_id) {
                let seen = self.queue@.take(self.next as int);
                assert(seen.drop_last() =~= self.queue@.take(self.next - 1));
                assert(seen.last() == claim_id);
                assert(recorded.push(claim_id).drop_last() =~= recorded);
                assert(is_subsequence(recorded, seen));
                assert(is_subsequence(recorded.push(claim_id), seen));
            }
        }
        match outcome {
            Some(result) => {
                self.results.push((claim_id, result));
                assert(self.recorded() =~= recorded.push(claim_id));
            },
            None => {
                assert(self.recorded() =~= recorded);
            },
        }
    }
}

} // verus!
