//! The claims processor together with the policy engine, the oracle verifier
//! and a risk pool, on a ledger that carries out their effects.

use parashield::claims_processor::types::{
    Claim, ClaimResult, ClaimStatus, ClaimantHistory, Effect, Error, Event, FraudConfig, FraudMode,
    Question, Reply, Step,
};
use parashield::claims_processor::{claim_ttl, ClaimsProcessor};
use parashield::oracle_verifier::OracleVerifier;
use parashield::policy_engine::types::{
    CreateProductParams, Effect as EngineEffect, Policy, PolicyStatus, TriggerComparison, TriggerType,
};
use parashield::policy_engine::PolicyEngine;
use parashield::text::{Addr, Sym};

const COVERAGE: i128 = 1_000_000_000; // 100 USDC
const MAX_BATCH_SIZE: usize = 50;
const DAY: u64 = 86_400;

fn address(kind: u8, n: u8) -> Addr {
    let mut text = [b'A'; 56];
    text[0] = kind;
    text[54] = b'A' + n / 26;
    text[55] = b'A' + n % 26;
    Addr::new(&text).unwrap()
}

fn sym(text: &str) -> Sym {
    Sym::new(text.as_bytes()).unwrap()
}

/// Why a call on the ledger did not stand.
#[derive(Debug, PartialEq)]
enum Failure {
    Claims(Error),
    Engine(parashield::policy_engine::types::Error),
    Oracle(parashield::oracle_verifier::types::Error),
    Token,
}

struct World {
    now: u64,
    admin: Addr,
    keeper: Addr,
    oracle_w: Addr,
    usdc: Addr,
    engine_id: Addr,
    claims_id: Addr,
    engine: PolicyEngine,
    oracle: OracleVerifier,
    cp: ClaimsProcessor,
    balances: Vec<(Addr, i128)>,
    engine_held: i128,
    pool_locked: Vec<(u128, i128)>,
    engine_done: usize,
    done: usize,
    made: u8,
}

fn deploy_with(staleness: u64) -> World {
    let (admin, keeper, oracle_w, usdc) =
        (address(b'C', 1), address(b'C', 2), address(b'C', 3), address(b'C', 4));
    let (engine_id, oracle_id, claims_id, pool_id) =
        (address(b'C', 5), address(b'C', 6), address(b'C', 7), address(b'C', 8));
    let mut oracle = OracleVerifier::new();
    oracle.initialize(admin).unwrap();
    oracle.add_oracle(admin, oracle_w, sym("weather"), 90).unwrap();
    let mut engine = PolicyEngine::new();
    engine.initialize(admin, usdc, oracle_id, true).unwrap();
    let mut cp = ClaimsProcessor::new();
    cp.initialize(admin, engine_id, pool_id, oracle_id, staleness).unwrap();
    cp.add_keeper(admin, keeper).unwrap();
    engine.set_claims_processor(admin, claims_id).unwrap();
    let (engine_done, done) = (engine.outbox.len(), cp.outbox.len());
    World {
        now: 0,
        admin,
        keeper,
        oracle_w,
        usdc,
        engine_id,
        claims_id,
        engine,
        oracle,
        cp,
        balances: vec![],
        engine_held: 0,
        pool_locked: vec![],
        engine_done,
        done,
        made: 20,
    }
}

fn deploy() -> World {
    deploy_with(604_800)
}

impl World {
    fn generate(&mut self) -> Addr {
        self.made += 1;
        address(b'C', self.made)
    }

    fn balance(&self, who: Addr) -> i128 {
        self.balances.iter().find(|(a, _)| *a == who).map(|(_, b)| *b).unwrap_or(0)
    }

    fn mint(&mut self, who: Addr, amount: i128) {
        let total = self.balance(who) + amount;
        self.balances.retain(|(a, _)| *a != who);
        self.balances.push((who, total));
    }

    fn total_locked(&self) -> i128 {
        self.pool_locked.iter().map(|(_, a)| *a).sum()
    }

    fn settle_engine(&mut self) {
        while self.engine_done < self.engine.outbox.len() {
            if let EngineEffect::Collect { token, from, amount } = self.engine.outbox[self.engine_done] {
                assert_eq!(token, self.usdc);
                assert!(self.balance(from) >= amount);
                self.mint(from, -amount);
                self.engine_held += amount;
            }
            self.engine_done += 1;
        }
    }

    /// Carry out what the processor asks for.
    fn settle(&mut self) {
        while self.done < self.cp.outbox.len() {
            match self.cp.outbox[self.done] {
                Effect::PayPolicy { policy_engine, policy_id } => {
                    assert_eq!(policy_engine, self.engine_id);
                    let payout = self.engine.claim_payout(self.claims_id, policy_id).unwrap();
                    assert!(self.engine_held >= payout.amount);
                    self.engine_held -= payout.amount;
                    self.mint(payout.to, payout.amount);
                    self.engine.pay_claim(self.claims_id, policy_id, true).unwrap();
                }
                Effect::ExpirePolicy { policy_engine, policy_id } => {
                    assert_eq!(policy_engine, self.engine_id);
                    self.engine.expire_policy(self.claims_id, policy_id).unwrap();
                }
                Effect::ReleaseForClaim { policy_id, .. } | Effect::ReleaseForExpiry { policy_id, .. } => {
                    self.pool_locked.retain(|(id, _)| *id != policy_id);
                }
                _ => {}
            }
            self.done += 1;
        }
        self.settle_engine();
    }

    /// The answer to a question, or why it cannot be had.
    fn answer(&mut self, question: Question, reply: &mut Reply) -> Result<(), Failure> {
        match question {
            Question::Policy { policy_engine, policy_id } => {
                assert_eq!(policy_engine, self.engine_id);
                reply.policy = Some(self.engine.get_policy(policy_id).map_err(Failure::Engine)?);
            }
            Question::Trigger { condition, max_age_seconds, .. } => {
                let met = self
                    .oracle
                    .verify_trigger_fresh(
                        self.now,
                        condition.data_type,
                        condition.key,
                        condition,
                        max_age_seconds,
                    )
                    .map_err(Failure::Oracle)?;
                let policy = reply.policy.unwrap();
                if met && self.cp.payout_delay == 0 && self.engine_held < policy.coverage_amount {
                    return Err(Failure::Token);
                }
                reply.trigger = Some(met);
            }
        }
        Ok(())
    }

    fn submit(&mut self, claimant: Addr, policy_id: u128) -> Result<u128, Failure> {
        let mut reply = Reply::none();
        loop {
            match self.cp.submit_claim(self.now, claimant, policy_id, reply).map_err(Failure::Claims)? {
                Step::Done(id) => {
                    self.settle();
                    return Ok(id);
                }
                Step::Ask { question, .. } => self.answer(question, &mut reply)?,
            }
        }
    }

    fn process(&mut self, keeper: Addr, claim_id: u128, bps: Option<u32>) -> Result<ClaimResult, Failure> {
        let mut reply = Reply::none();
        loop {
            match self
                .cp
                .process_claim(self.now, keeper, claim_id, bps, reply)
                .map_err(Failure::Claims)?
            {
                Step::Done(result) => {
                    self.settle();
                    return Ok(result);
                }
                Step::Ask { question, .. } => self.answer(question, &mut reply)?,
            }
        }
    }

    fn auto(&mut self, keeper: Addr, policy_id: u128) -> Result<ClaimResult, Failure> {
        let mut reply = Reply::none();
        loop {
            match self
                .cp
                .auto_process(self.now, keeper, policy_id, None, reply)
                .map_err(Failure::Claims)?
            {
                Step::Done(result) => {
                    self.settle();
                    return Ok(result);
                }
                Step::Ask { question, .. } => self.answer(question, &mut reply)?,
            }
        }
    }

    fn payout(&mut self, claim_id: u128) -> Result<i128, Failure> {
        let mut reply = Reply::none();
        loop {
            match self.cp.claim_payout(self.now, claim_id, reply.policy).map_err(Failure::Claims)? {
                Step::Done(amount) => {
                    self.settle();
                    return Ok(amount);
                }
                Step::Ask { question, .. } => self.answer(question, &mut reply)?,
            }
        }
    }

    fn batch_auto(&mut self, keeper: Addr, limit: u32) -> Result<Vec<(u128, ClaimResult)>, Failure> {
        let mut run = self.cp.batch_auto_process(keeper, limit).map_err(Failure::Claims)?;
        while let Some((claim_id, policy_id)) = run.next_claim(&self.cp) {
            let outcome = self.auto(keeper, policy_id).ok();
            run.record(claim_id, outcome);
        }
        Ok(run.results)
    }

    fn claim(&self, id: u128) -> Claim {
        self.cp.get_claim(id).unwrap()
    }

    fn policy(&self, id: u128) -> Policy {
        self.engine.get_policy(id).unwrap()
    }

    fn pending(&self) -> usize {
        self.cp.get_pending_claims().len()
    }

    fn rainfall(&mut self, mm: i128) {
        self.oracle
            .submit_data(self.now, self.oracle_w, sym("weather"), sym("kis2606"), mm, 95, self.now)
            .unwrap();
    }

    fn create_crop_product(&mut self) -> u128 {
        self.engine.create_product(self.now, self.admin, crop_params()).unwrap()
    }

    fn buy(&mut self, buyer: Addr, pid: u128, coverage: i128, key: &str) -> u128 {
        let id = self.engine.buy_policy(self.now, buyer, pid, coverage, 30, sym(key)).unwrap();
        self.settle_engine();
        self.pool_locked.push((id, coverage));
        id
    }

    fn buy_crop_policy(&mut self, buyer: Addr, pid: u128) -> u128 {
        self.mint(buyer, 5_000_000_000);
        self.engine_held += 10_000_000_000;
        self.buy(buyer, pid, COVERAGE, "kis2606")
    }

    /// A crop policy of a new buyer.
    fn policy_of_new_buyer(&mut self) -> (Addr, u128) {
        let pid = self.create_crop_product();
        let buyer = self.generate();
        let id = self.buy_crop_policy(buyer, pid);
        (buyer, id)
    }
}

fn crop_params() -> CreateProductParams {
    CreateProductParams {
        name: sym("crop_kism"),
        category: sym("crop"),
        oracle_key: sym("kis2606"),
        trigger_type: TriggerType::Threshold,
        oracle_data_type: sym("weather"),
        trigger_threshold: 50_000_000,
        trigger_comparison: TriggerComparison::LessThan,
        coverage_min: 100_000_000,
        coverage_max: 10_000_000_000,
        premium_rate_bps: 500,
        max_duration_days: 365,
    }
}

fn code<T: std::fmt::Debug>(r: Result<T, Error>) -> u32 {
    r.unwrap_err().code()
}

fn ledger_code<T: std::fmt::Debug>(r: Result<T, Failure>) -> u32 {
    match r.unwrap_err() {
        Failure::Claims(e) => e.code(),
        other => panic!("{:?}", other),
    }
}

const PAID: i128 = 5_000_000_000 - 4_109_589 + 1_000_000_000;

// ── Settlement ────────────────────────────────────────────────────────────────

#[test]
fn test_drought_trigger_pays_out() {
    let mut w = deploy();
    let (buyer, pol_id) = w.policy_of_new_buyer();
    // 32mm < 50mm threshold: trigger met
    w.rainfall(32_000_000);
    let keeper = w.keeper;
    assert_eq!(w.auto(keeper, pol_id), Ok(ClaimResult::Paid));
    assert_eq!(w.balance(buyer), 5_000_000_000 - 4_109_589 + 1_000_000_000);
}

#[test]
fn test_good_rainfall_no_payout() {
    let mut w = deploy();
    let (buyer, pol_id) = w.policy_of_new_buyer();
    // 72mm > 50mm: trigger not met
    w.rainfall(72_000_000);
    let keeper = w.keeper;
    assert_eq!(w.auto(keeper, pol_id), Ok(ClaimResult::Rejected));
    assert_eq!(w.balance(buyer), 5_000_000_000 - 4_109_589, "no payout when trigger not met");
}

#[test]
fn test_expired_policy_no_payout() {
    let mut w = deploy();
    let (_, pol_id) = w.policy_of_new_buyer();
    w.now += 31 * 86_400;
    let keeper = w.keeper;
    assert_eq!(w.auto(keeper, pol_id), Ok(ClaimResult::Expired));
    assert_eq!(w.policy(pol_id).status, PolicyStatus::Expired);
    // and the policy engine's answer stands from then on
    assert_eq!(w.auto(keeper, pol_id), Ok(ClaimResult::Expired));
}

#[test]
fn test_expired_policy_releases_pool_capital() {
    let mut w = deploy();
    let (_, pol_id) = w.policy_of_new_buyer();
    assert_eq!(w.total_locked(), COVERAGE, "coverage should be locked while active");
    w.now += 31 * 86_400;
    let keeper = w.keeper;
    assert_eq!(w.auto(keeper, pol_id), Ok(ClaimResult::Expired));
    assert_eq!(w.total_locked(), 0, "expiry must release the capital lock atomically");
}

#[test]
fn test_double_process_idempotent() {
    let mut w = deploy();
    let (buyer, pol_id) = w.policy_of_new_buyer();
    w.rainfall(20_000_000);
    let keeper = w.keeper;
    assert_eq!(w.auto(keeper, pol_id), Ok(ClaimResult::Paid));
    assert_eq!(w.auto(keeper, pol_id), Ok(ClaimResult::AlreadyProcessed));
    assert_eq!(w.balance(buyer), PAID);
}

#[test]
fn test_process_claim_is_idempotent_after_first_settlement() {
    let mut w = deploy();
    let (buyer, pol_id) = w.policy_of_new_buyer();
    w.rainfall(20_000_000);
    let keeper = w.keeper;
    let claim_id = w.submit(buyer, pol_id).unwrap();
    assert_eq!(w.process(keeper, claim_id, None), Ok(ClaimResult::Paid));
    assert_eq!(w.process(keeper, claim_id, None), Ok(ClaimResult::AlreadyProcessed));
}

#[test]
fn test_double_submit_claim_panics() {
    let mut w = deploy();
    let (buyer, pol_id) = w.policy_of_new_buyer();
    w.rainfall(20_000_000);
    w.submit(buyer, pol_id).unwrap();
    assert_eq!(ledger_code(w.submit(buyer, pol_id)), 6);
}

#[test]
fn test_non_policyholder_cannot_submit_claim() {
    let mut w = deploy();
    let (_, pol_id) = w.policy_of_new_buyer();
    w.rainfall(20_000_000);
    let stranger = w.generate();
    assert_eq!(ledger_code(w.submit(stranger, pol_id)), 3);
}

#[test]
fn test_manual_claim_flow() {
    let mut w = deploy();
    let (buyer, pol_id) = w.policy_of_new_buyer();
    w.rainfall(30_000_000);
    let keeper = w.keeper;
    let claim_id = w.submit(buyer, pol_id).unwrap();
    assert_eq!(w.process(keeper, claim_id, None), Ok(ClaimResult::Paid));
    let claim = w.claim(claim_id);
    assert_eq!(claim.status, ClaimStatus::Paid);
    assert!(claim.trigger_met);
    assert_eq!(claim.paid_amount, Some(COVERAGE));
    assert_eq!(w.cp.get_claim_id_for_policy(pol_id), Some(claim_id));
    assert_eq!(w.cp.get_claim_id_for_policy(99), None);
}

#[test]
fn claims_can_be_submitted_until_the_deadline() {
    let mut w = deploy();
    let pid = w.create_crop_product();
    let buyer = w.generate();
    let first = w.buy_crop_policy(buyer, pid);
    let second = w.buy_crop_policy(buyer, pid);
    let third = w.buy_crop_policy(buyer, pid);
    assert_eq!(w.cp.get_claim_deadline(), 30 * DAY);
    w.now = 60 * DAY;
    assert_eq!(w.submit(buyer, first), Ok(1));
    w.now = 60 * DAY + 1;
    assert_eq!(ledger_code(w.submit(buyer, second)), 19);
    assert_eq!(code(w.cp.set_claim_deadline(w.admin, 59)), 18);
    w.cp.set_claim_deadline(w.admin, 31 * DAY).unwrap();
    assert_eq!(w.submit(buyer, second), Ok(2));
    w.cp.set_claim_deadline(w.admin, 0).unwrap();
    w.now = 30 * DAY + 1;
    assert_eq!(ledger_code(w.submit(buyer, third)), 19);
    w.now = 30 * DAY;
    assert_eq!(w.submit(buyer, third), Ok(3));
}

#[test]
fn a_claim_needs_an_active_policy_and_a_processor_that_is_set_up() {
    let mut w = deploy();
    let (buyer, pol_id) = w.policy_of_new_buyer();
    w.engine.cancel_policy(w.now, buyer, pol_id).unwrap();
    assert_eq!(ledger_code(w.submit(buyer, pol_id)), 5);
    let keeper = w.keeper;
    assert_eq!(w.auto(keeper, pol_id), Ok(ClaimResult::PolicyNotActive));
    assert_eq!(
        w.submit(buyer, 77),
        Err(Failure::Engine(parashield::policy_engine::types::Error::PolicyNotFound))
    );
    let mut fresh = ClaimsProcessor::new();
    assert_eq!(code(fresh.submit_claim(0, buyer, 1, Reply::none())), 2);
    assert_eq!(code(fresh.get_admin()), 2);
}

#[test]
fn a_policy_claimed_elsewhere_is_reported() {
    let mut w = deploy();
    let (_, pol_id) = w.policy_of_new_buyer();
    w.engine.pay_claim(w.claims_id, pol_id, true).unwrap();
    let keeper = w.keeper;
    assert_eq!(w.auto(keeper, pol_id), Ok(ClaimResult::AlreadyClaimed));
    assert_eq!(w.pending(), 0);
}

#[test]
fn a_question_changes_nothing() {
    let mut w = deploy();
    let (buyer, pol_id) = w.policy_of_new_buyer();
    let sent = w.cp.outbox.len();
    let keeper = w.keeper;
    let policy = w.policy(pol_id);
    let ask = Step::Ask {
        item: 0,
        question: Question::Policy { policy_engine: w.engine_id, policy_id: pol_id },
    };
    assert_eq!(w.cp.submit_claim(0, buyer, pol_id, Reply::none()), Ok(ask));
    let reply = Reply { policy: Some(policy), trigger: None };
    match w.cp.auto_process(0, keeper, pol_id, None, reply) {
        Ok(Step::Ask { question: Question::Trigger { condition, max_age_seconds, .. }, .. }) => {
            assert_eq!(condition.threshold, 50_000_000);
            assert_eq!(condition.key, sym("kis2606"));
            assert_eq!(condition.tolerance, 0);
            assert_eq!(max_age_seconds, 604_800);
        }
        other => panic!("{:?}", other),
    }
    assert_eq!(w.cp.outbox.len(), sent);
    assert_eq!(w.cp.get_claim_id_for_policy(pol_id), None);
}

// ── Keeper registry ───────────────────────────────────────────────────────────

#[test]
fn test_auto_process_rejects_unregistered_keeper() {
    let mut w = deploy();
    let (_, pol_id) = w.policy_of_new_buyer();
    w.rainfall(20_000_000);
    let stranger = w.generate();
    assert_eq!(ledger_code(w.auto(stranger, pol_id)), 3);
}

#[test]
fn test_process_claim_rejects_unregistered_keeper() {
    let mut w = deploy();
    let (buyer, pol_id) = w.policy_of_new_buyer();
    w.rainfall(20_000_000);
    let claim_id = w.submit(buyer, pol_id).unwrap();
    let stranger = w.generate();
    assert_eq!(ledger_code(w.process(stranger, claim_id, None)), 3);
}

#[test]
fn test_removed_keeper_cannot_process() {
    let mut w = deploy();
    let (_, pol_id) = w.policy_of_new_buyer();
    w.rainfall(20_000_000);
    let keeper = w.keeper;
    assert!(w.cp.is_keeper(&keeper));
    w.cp.remove_keeper(w.admin, keeper).unwrap();
    assert!(!w.cp.is_keeper(&keeper));
    assert_eq!(ledger_code(w.auto(keeper, pol_id)), 3);
}

#[test]
fn test_non_admin_cannot_add_keeper() {
    let mut w = deploy();
    let (stranger, new_keep) = (w.generate(), w.generate());
    assert_eq!(code(w.cp.add_keeper(stranger, new_keep)), 3);
    assert_eq!(code(w.cp.remove_keeper(stranger, new_keep)), 3);
}

// ── Pending queue lifecycle ───────────────────────────────────────────────────

#[test]
fn test_pending_queue_cleared_after_auto_process() {
    let mut w = deploy();
    let (_, pol_id) = w.policy_of_new_buyer();
    w.rainfall(20_000_000);
    assert_eq!(w.pending(), 0);
    let keeper = w.keeper;
    assert_eq!(w.auto(keeper, pol_id), Ok(ClaimResult::Paid));
    assert_eq!(w.pending(), 0, "settled claim left in queue");
}

#[test]
fn test_pending_queue_cleared_after_process_claim() {
    let mut w = deploy();
    let (buyer, pol_id) = w.policy_of_new_buyer();
    w.rainfall(30_000_000);
    let claim_id = w.submit(buyer, pol_id).unwrap();
    assert_eq!(w.pending(), 1);
    let keeper = w.keeper;
    w.process(keeper, claim_id, None).unwrap();
    assert_eq!(w.pending(), 0, "settled claim left in queue");
}

#[test]
fn test_dispute_pending_claim_dequeues() {
    let mut w = deploy();
    let (buyer, pol_id) = w.policy_of_new_buyer();
    w.rainfall(30_000_000);
    let claim_id = w.submit(buyer, pol_id).unwrap();
    assert_eq!(w.pending(), 1);
    w.cp.dispute_claim(buyer, claim_id, sym("disagree")).unwrap();
    assert_eq!(w.claim(claim_id).status, ClaimStatus::Disputed);
    assert_eq!(w.claim(claim_id).dispute_reason, Some(sym("disagree")));
    assert_eq!(w.pending(), 0, "disputed claim left in queue");
}

// ── Dispute status guard ──────────────────────────────────────────────────────

fn paid_claim() -> (World, Addr, u128) {
    let mut w = deploy();
    let (buyer, pol_id) = w.policy_of_new_buyer();
    w.rainfall(20_000_000);
    let claim_id = w.submit(buyer, pol_id).unwrap();
    let keeper = w.keeper;
    assert_eq!(w.process(keeper, claim_id, None), Ok(ClaimResult::Paid));
    (w, buyer, claim_id)
}

#[test]
fn test_cannot_dispute_paid_claim() {
    let (mut w, buyer, claim_id) = paid_claim();
    assert_eq!(w.claim(claim_id).status, ClaimStatus::Paid);
    assert_eq!(code(w.cp.dispute_claim(buyer, claim_id, sym("reversal"))), 7);
}

fn rejected_claim() -> (World, Addr, u128) {
    let mut w = deploy();
    let (buyer, pol_id) = w.policy_of_new_buyer();
    w.rainfall(72_000_000);
    let claim_id = w.submit(buyer, pol_id).unwrap();
    let keeper = w.keeper;
    assert_eq!(w.process(keeper, claim_id, None), Ok(ClaimResult::Rejected));
    (w, buyer, claim_id)
}

#[test]
fn test_rejected_claim_disputable_then_locked() {
    let (mut w, buyer, claim_id) = rejected_claim();
    w.cp.dispute_claim(buyer, claim_id, sym("disagree")).unwrap();
    assert_eq!(w.claim(claim_id).status, ClaimStatus::Disputed);
}

#[test]
fn test_cannot_redispute_disputed_claim() {
    let (mut w, buyer, claim_id) = rejected_claim();
    w.cp.dispute_claim(buyer, claim_id, sym("disagree")).unwrap();
    assert_eq!(code(w.cp.dispute_claim(buyer, claim_id, sym("again"))), 7);
}

// ── Initialization ────────────────────────────────────────────────────────────

#[test]
fn test_initialize_with_valid_addresses_succeeds() {
    let (a, b, c, d) = (address(b'C', 1), address(b'C', 2), address(b'C', 3), address(b'C', 4));
    let mut cp = ClaimsProcessor::new();
    cp.initialize(a, b, c, d, 604_800).unwrap();
    assert_eq!(cp.get_admin(), Ok(a));
    assert_eq!(code(cp.initialize(a, b, c, d, 604_800)), 1);
    let bad = Addr::new(b"Cxyz").unwrap();
    for (a, b, c, d) in [(bad, b, c, d), (a, bad, c, d), (a, b, bad, d), (a, b, c, bad)] {
        let mut cp = ClaimsProcessor::new();
        assert_eq!(code(cp.initialize(a, b, c, d, 604_800)), 8);
        assert!(!cp.initialized);
    }
    assert_eq!(code(ClaimsProcessor::validate_stellar_address(&bad)), 8);
}

#[test]
fn test_non_keeper_cannot_auto_process() {
    let mut w = deploy();
    let (_, pol_id) = w.policy_of_new_buyer();
    w.rainfall(20_000_000);
    let stranger = w.generate();
    assert_eq!(ledger_code(w.auto(stranger, pol_id)), 3);
}

#[test]
fn test_non_keeper_cannot_process_claim() {
    let mut w = deploy();
    let (buyer, pol_id) = w.policy_of_new_buyer();
    w.rainfall(20_000_000);
    let claim_id = w.submit(buyer, pol_id).unwrap();
    let stranger = w.generate();
    assert_eq!(ledger_code(w.process(stranger, claim_id, None)), 3);
}

#[test]
fn test_process_claim_double_processing_returns_already_processed() {
    let (mut w, buyer, claim_id) = paid_claim();
    let keeper = w.keeper;
    assert_eq!(w.process(keeper, claim_id, None), Ok(ClaimResult::AlreadyProcessed));
    assert_eq!(w.balance(buyer), 5_000_000_000 - 4_109_589 + 1_000_000_000);
    assert_eq!(ledger_code(w.process(keeper, 999, None)), 4);
}

#[test]
fn test_batch_auto_process_empty_pending_list() {
    let mut w = deploy();
    assert_eq!(w.pending(), 0);
    let keeper = w.keeper;
    let results = w.batch_auto(keeper, 10).unwrap();
    assert_eq!(results.len(), 0);
    assert_eq!(w.pending(), 0);
    let stranger = w.generate();
    assert_eq!(ledger_code(w.batch_auto(stranger, 10)), 3);
}

// ── Dispute negative cases ────────────────────────────────────────────────────

#[test]
fn test_dispute_nonexistent_claim_fails() {
    let mut w = deploy();
    let claimant = w.generate();
    assert_eq!(code(w.cp.dispute_claim(claimant, 999_999, sym("reason"))), 4);
}

#[test]
fn test_dispute_paid_claim_fails() {
    let mut w = deploy();
    let (buyer, pol_id) = w.policy_of_new_buyer();
    w.rainfall(30_000_000);
    let claim_id = w.submit(buyer, pol_id).unwrap();
    let keeper = w.keeper;
    assert_eq!(w.process(keeper, claim_id, None), Ok(ClaimResult::Paid));
    assert_eq!(code(w.cp.dispute_claim(buyer, claim_id, sym("reason"))), 7);
}

#[test]
fn test_dispute_already_disputed_claim_fails() {
    let mut w = deploy();
    let (buyer, pol_id) = w.policy_of_new_buyer();
    w.rainfall(20_000_000);
    let claim_id = w.submit(buyer, pol_id).unwrap();
    let stranger = w.generate();
    assert_eq!(code(w.cp.dispute_claim(stranger, claim_id, sym("first"))), 3);
    w.cp.dispute_claim(buyer, claim_id, sym("first")).unwrap();
    assert_eq!(code(w.cp.dispute_claim(buyer, claim_id, sym("second"))), 7);
}

#[test]
fn claim_records_are_kept_for_a_year_at_most() {
    assert_eq!(claim_ttl(u32::MAX), 6_307_200);
    assert_eq!(claim_ttl(100), 100);
}

// ── Escalation ────────────────────────────────────────────────────────────────

fn pending_claim() -> (World, u128, Addr) {
    let mut w = deploy();
    let (buyer, pol_id) = w.policy_of_new_buyer();
    let claim_id = w.submit(buyer, pol_id).unwrap();
    (w, claim_id, buyer)
}

#[test]
fn escalation_threshold_defaults_to_seven_days() {
    let w = deploy();
    assert_eq!(w.cp.get_escalation_threshold(), 7 * 24 * 60 * 60);
}

#[test]
fn admin_can_set_the_escalation_threshold() {
    let mut w = deploy();
    w.cp.set_escalation_threshold(w.admin, 24 * 60 * 60).unwrap();
    assert_eq!(w.cp.get_escalation_threshold(), 24 * 60 * 60);
}

#[test]
fn a_near_zero_threshold_is_rejected() {
    let mut w = deploy();
    assert_eq!(code(w.cp.set_escalation_threshold(w.admin, 60)), 18);
}

#[test]
fn setting_the_threshold_requires_admin() {
    let mut w = deploy();
    let stranger = w.generate();
    assert_eq!(code(w.cp.set_escalation_threshold(stranger, 24 * 60 * 60)), 3);
}

#[test]
fn a_fresh_claim_is_not_escalatable() {
    let (w, claim_id, _) = pending_claim();
    let age = w.cp.get_claim_age(w.now, claim_id).unwrap();
    assert!(!age.escalatable);
    assert_eq!(age.status, ClaimStatus::Pending);
    assert_eq!(age.seconds_until_escalatable, 7 * 24 * 60 * 60);
    assert_eq!(code(w.cp.get_claim_age(w.now, 99)), 4);
}

#[test]
fn a_claim_becomes_escalatable_once_overdue() {
    let (mut w, claim_id, _) = pending_claim();
    w.now += 7 * 24 * 60 * 60;
    let age = w.cp.get_claim_age(w.now, claim_id).unwrap();
    assert!(age.escalatable);
    assert_eq!(age.seconds_until_escalatable, 0);
    assert_eq!(age.pending_for, 7 * 24 * 60 * 60);
}

#[test]
fn escalating_too_early_is_refused() {
    let (mut w, claim_id, buyer) = pending_claim();
    assert_eq!(code(w.cp.escalate_claim(w.now, buyer, claim_id)), 17);
    assert_eq!(code(w.cp.escalate_claim(w.now, buyer, 99)), 4);
}

#[test]
fn escalating_an_overdue_claim_marks_it_escalated() {
    let (mut w, claim_id, buyer) = pending_claim();
    w.now += 7 * 24 * 60 * 60 + 1;
    w.cp.escalate_claim(w.now, buyer, claim_id).unwrap();
    assert_eq!(w.claim(claim_id).status, ClaimStatus::Escalated);
}

#[test]
fn escalation_is_permissionless() {
    let (mut w, claim_id, _) = pending_claim();
    let stranger = w.generate();
    w.now += 7 * 24 * 60 * 60 + 1;
    w.cp.escalate_claim(w.now, stranger, claim_id).unwrap();
    assert_eq!(w.claim(claim_id).status, ClaimStatus::Escalated);
}

#[test]
fn escalating_twice_is_refused() {
    let (mut w, claim_id, buyer) = pending_claim();
    w.now += 7 * 24 * 60 * 60 + 1;
    w.cp.escalate_claim(w.now, buyer, claim_id).unwrap();
    assert_eq!(code(w.cp.escalate_claim(w.now, buyer, claim_id)), 17);
}

#[test]
fn a_settled_claim_cannot_be_escalated() {
    let (mut w, buyer, claim_id) = paid_claim();
    w.now += 30 * 24 * 60 * 60;
    assert_eq!(code(w.cp.escalate_claim(w.now, buyer, claim_id)), 17);
}

#[test]
fn escalation_uses_the_configured_threshold() {
    let (mut w, claim_id, buyer) = pending_claim();
    w.cp.set_escalation_threshold(w.admin, 24 * 60 * 60).unwrap();
    w.now += 24 * 60 * 60 + 1;
    w.cp.escalate_claim(w.now, buyer, claim_id).unwrap();
    assert_eq!(w.claim(claim_id).status, ClaimStatus::Escalated);
}

#[test]
fn overdue_claims_can_be_listed() {
    let (mut w, claim_id, _) = pending_claim();
    assert_eq!(w.cp.get_escalatable_claims(w.now).len(), 0, "nothing overdue yet");
    w.now += 7 * 24 * 60 * 60 + 1;
    let overdue = w.cp.get_escalatable_claims(w.now);
    assert_eq!(overdue.len(), 1);
    assert_eq!(overdue[0], claim_id);
}

#[test]
fn an_escalated_claim_leaves_the_pending_queue() {
    let (mut w, claim_id, buyer) = pending_claim();
    w.now += 7 * 24 * 60 * 60 + 1;
    w.cp.escalate_claim(w.now, buyer, claim_id).unwrap();
    assert_eq!(w.cp.get_escalatable_claims(w.now).len(), 0);
    assert_eq!(w.pending(), 0);
}

#[test]
fn claim_age_reports_zero_pending_time_once_resolved() {
    let (w, _, claim_id) = paid_claim();
    let age = w.cp.get_claim_age(w.now, claim_id).unwrap();
    assert_eq!(age.pending_for, 0);
    assert!(!age.escalatable);
}

// ── Dispute resolution ────────────────────────────────────────────────────────

#[test]
fn test_resolve_dispute_succeeds() {
    let mut w = deploy();
    let (buyer, pol_id) = w.policy_of_new_buyer();
    w.rainfall(20_000_000);
    let claim_id = w.submit(buyer, pol_id).unwrap();
    w.cp.dispute_claim(buyer, claim_id, sym("disagree")).unwrap();
    assert_eq!(w.claim(claim_id).status, ClaimStatus::Disputed);
    assert_eq!(w.pending(), 0);
    w.cp.resolve_dispute(w.admin, claim_id).unwrap();
    let claim = w.claim(claim_id);
    assert_eq!(claim.status, ClaimStatus::Pending);
    assert_eq!(claim.dispute_reason, None);
    assert_eq!(w.pending(), 1);
    assert_eq!(w.cp.get_pending_claims()[0], claim_id);
}

#[test]
fn test_resolve_dispute_nonexistent_claim_fails() {
    let mut w = deploy();
    assert_eq!(code(w.cp.resolve_dispute(w.admin, 999_999)), 4);
}

#[test]
fn test_resolve_dispute_non_admin_fails() {
    let mut w = deploy();
    let (buyer, pol_id) = w.policy_of_new_buyer();
    w.rainfall(20_000_000);
    let claim_id = w.submit(buyer, pol_id).unwrap();
    w.cp.dispute_claim(buyer, claim_id, sym("disagree")).unwrap();
    let stranger = w.generate();
    assert_eq!(code(w.cp.resolve_dispute(stranger, claim_id)), 3);
}

#[test]
fn test_resolve_dispute_non_disputed_claim_fails() {
    let mut w = deploy();
    let (buyer, pol_id) = w.policy_of_new_buyer();
    w.rainfall(20_000_000);
    let claim_id = w.submit(buyer, pol_id).unwrap();
    assert_eq!(code(w.cp.resolve_dispute(w.admin, claim_id)), 7);
}

#[test]
fn test_resolved_dispute_can_be_processed() {
    let mut w = deploy();
    let (buyer, pol_id) = w.policy_of_new_buyer();
    w.rainfall(20_000_000);
    let claim_id = w.submit(buyer, pol_id).unwrap();
    w.cp.dispute_claim(buyer, claim_id, sym("disagree")).unwrap();
    w.cp.resolve_dispute(w.admin, claim_id).unwrap();
    let keeper = w.keeper;
    assert_eq!(w.process(keeper, claim_id, None), Ok(ClaimResult::Paid));
    assert_eq!(w.claim(claim_id).status, ClaimStatus::Paid);
    assert_eq!(w.balance(buyer), 5_000_000_000 - 4_109_589 + 1_000_000_000);
}

#[test]
fn test_resolve_dispute_paid_claim_fails() {
    let (mut w, _, claim_id) = paid_claim();
    assert_eq!(code(w.cp.resolve_dispute(w.admin, claim_id)), 7);
}

// ── Batches ───────────────────────────────────────────────────────────────────

fn batch_submit(w: &mut World, claimant: Addr, ids: &Vec<u128>) -> Result<Vec<u128>, Failure> {
    let mut replies = vec![];
    loop {
        match w.cp.batch_submit_claims(w.now, claimant, ids, &replies).map_err(Failure::Claims)? {
            Step::Done(v) => {
                w.settle();
                return Ok(v);
            }
            Step::Ask { item, question } => {
                replies.resize(item + 1, Reply::none());
                let mut reply = replies[item];
                w.answer(question, &mut reply)?;
                replies[item] = reply;
            }
        }
    }
}

fn batch_process(w: &mut World, keeper: Addr, ids: &Vec<u128>) -> Result<Vec<(u128, ClaimResult)>, Failure> {
    let mut replies = vec![];
    loop {
        match w
            .cp
            .batch_process_claims(w.now, keeper, ids, None, &replies)
            .map_err(Failure::Claims)?
        {
            Step::Done(v) => {
                w.settle();
                return Ok(v);
            }
            Step::Ask { item, question } => {
                replies.resize((item + 1).max(replies.len()), Reply::none());
                let mut reply = replies[item];
                w.answer(question, &mut reply)?;
                replies[item] = reply;
            }
        }
    }
}

#[test]
fn test_batch_submit_and_process_claims() {
    let mut w = deploy();
    let pid = w.create_crop_product();
    let buyer = w.generate();
    let policy_ids = vec![w.buy_crop_policy(buyer, pid), w.buy_crop_policy(buyer, pid)];
    w.rainfall(20_000_000); // 20mm < 50mm threshold
    let claim_ids = batch_submit(&mut w, buyer, &policy_ids).unwrap();
    assert_eq!(claim_ids.len(), 2);
    assert_eq!(w.pending(), 2);
    let keeper = w.keeper;
    let results = batch_process(&mut w, keeper, &claim_ids).unwrap();
    assert_eq!(results.len(), 2);
    assert_eq!(results[0].1, ClaimResult::Paid);
    assert_eq!(results[1].1, ClaimResult::Paid);
    assert_eq!(w.pending(), 0);
    // a claim that was processed is only reported
    let again = batch_process(&mut w, keeper, &claim_ids).unwrap();
    assert_eq!(again[1], (claim_ids[1], ClaimResult::AlreadyProcessed));
}

#[test]
fn a_batch_that_fails_leaves_no_trace() {
    let mut w = deploy();
    let pid = w.create_crop_product();
    let buyer = w.generate();
    let id = w.buy_crop_policy(buyer, pid);
    let sent = w.cp.outbox.len();
    let r = batch_submit(&mut w, buyer, &vec![id, id]);
    assert_eq!(ledger_code(r), 6);
    assert_eq!(w.cp.outbox.len(), sent);
    assert_eq!(w.pending(), 0);
    assert_eq!(w.cp.get_claimant_history(buyer).total_submissions, 0);
    w.cp.pause(w.admin).unwrap();
    assert_eq!(ledger_code(batch_submit(&mut w, buyer, &vec![id])), 9);
    let keeper = w.keeper;
    assert_eq!(ledger_code(batch_process(&mut w, keeper, &vec![1])), 9);
    w.cp.resume(w.admin).unwrap();
    assert_eq!(ledger_code(batch_process(&mut w, keeper, &vec![7])), 4);
    assert_eq!(batch_submit(&mut w, buyer, &vec![id]), Ok(vec![1]));
}

#[test]
fn a_batch_takes_no_more_than_it_may() {
    let mut w = deploy();
    let pid = w.create_crop_product();
    let buyer = w.generate();
    let ids: Vec<u128> = (0..60).map(|_| w.buy_crop_policy(buyer, pid)).collect();
    let claims = batch_submit(&mut w, buyer, &ids).unwrap();
    assert_eq!(claims.len(), MAX_BATCH_SIZE);
    assert_eq!(w.pending(), MAX_BATCH_SIZE);
}

#[test]
fn test_batch_auto_process_clamps_limit_to_max_batch_size() {
    let mut w = deploy();
    let pid = w.create_crop_product();
    let total = MAX_BATCH_SIZE + 1;
    for _ in 0..total {
        let buyer = w.generate();
        let id = w.buy_crop_policy(buyer, pid);
        w.submit(buyer, id).unwrap();
    }
    w.rainfall(72_000_000);
    let keeper = w.keeper;
    let first = w.batch_auto(keeper, u32::MAX).unwrap();
    assert_eq!(first.len(), MAX_BATCH_SIZE);
    let second = w.batch_auto(keeper, u32::MAX).unwrap();
    assert_eq!(second.len(), total - MAX_BATCH_SIZE);
    for (_, result) in second {
        assert_eq!(result, ClaimResult::Rejected);
    }
}

#[test]
fn a_claim_that_fails_does_not_stop_the_run() {
    let mut w = deploy();
    let pid = w.create_crop_product();
    let (a, b, c) = (w.generate(), w.generate(), w.generate());
    let pa = w.buy_crop_policy(a, pid);
    let pb = w.buy_crop_policy(b, pid);
    let pc = w.buy_crop_policy(c, pid);
    let first = w.submit(a, pa).unwrap();
    let second = w.submit(b, pb).unwrap();
    let third = w.submit(c, pc).unwrap();
    w.rainfall(20_000_000);
    // the second policy watches a measurement that nobody reports
    let mut broken = w.policy(pb);
    broken.oracle_key = sym("nothing");
    w.engine.policies.insert(pb, broken);
    let keeper = w.keeper;
    assert_eq!(
        w.batch_auto(keeper, 10).unwrap(),
        vec![(first, ClaimResult::Paid), (third, ClaimResult::Paid)]
    );
    assert_eq!(w.cp.get_pending_claims(), &vec![second]);
    // a claim that was evaluated before is passed over, even if it is pending again
    let mut seen = w.claim(second);
    seen.processed_at = Some(1);
    w.cp.claims.insert(second, seen);
    assert_eq!(w.batch_auto(keeper, 10).unwrap(), vec![]);
}

// ── Fraud detection ───────────────────────────────────────────────────────────

fn strict_block_config() -> FraudConfig {
    FraudConfig {
        rate_window_secs: 60,
        rate_score: 40,
        burst_window_secs: 24 * 3600,
        burst_count: 3,
        burst_score: 30,
        coverage_anomaly_multiplier: 10,
        coverage_score: 20,
        fraud_threshold_score: 30,
        mode: FraudMode::Block,
    }
}

fn empty_history() -> ClaimantHistory {
    ClaimantHistory {
        last_submission_at: 0,
        burst_bucket_start: 0,
        burst_count: 0,
        max_coverage_ever: 0,
        total_submissions: 0,
    }
}

#[test]
fn fraud_score_is_zero_for_first_ever_submission() {
    let cfg = strict_block_config();
    let (score, flags) = ClaimsProcessor::score_submission(&cfg, 1_000, &empty_history(), 500_000_000);
    assert_eq!(score, 0);
    assert_eq!(flags, 0);
}

#[test]
fn fraud_score_fires_rate_rule_inside_window() {
    let cfg = strict_block_config();
    let hist = ClaimantHistory {
        last_submission_at: 1_000,
        burst_bucket_start: 1_000,
        burst_count: 1,
        max_coverage_ever: 500_000_000,
        total_submissions: 1,
    };
    // 30 seconds since last, well inside 60s rate window.
    let (score, flags) = ClaimsProcessor::score_submission(&cfg, 1_030, &hist, 500_000_000);
    assert_eq!(score, cfg.rate_score);
    assert_eq!(flags, 1);
}

#[test]
fn fraud_score_skips_rate_rule_outside_window() {
    let cfg = strict_block_config();
    let hist = ClaimantHistory {
        last_submission_at: 1_000,
        burst_bucket_start: 1_000,
        burst_count: 1,
        max_coverage_ever: 500_000_000,
        total_submissions: 1,
    };
    // 61 seconds since last, one past the boundary.
    let (score, flags) = ClaimsProcessor::score_submission(&cfg, 1_061, &hist, 500_000_000);
    assert_eq!(score, 0);
    assert_eq!(flags, 0);
}

#[test]
fn fraud_score_fires_burst_rule_at_configured_count() {
    let cfg = strict_block_config();
    let hist = ClaimantHistory {
        last_submission_at: 1_000,
        burst_bucket_start: 500,
        burst_count: 2,
        max_coverage_ever: 500_000_000,
        total_submissions: 2,
    };
    // 65s after last, outside rate window so only burst can fire.
    let (score, flags) = ClaimsProcessor::score_submission(&cfg, 1_065, &hist, 500_000_000);
    assert_eq!(score, cfg.burst_score);
    assert_eq!(flags, 2);
}

#[test]
fn fraud_score_fires_coverage_anomaly_beyond_multiplier() {
    let cfg = strict_block_config();
    let hist = ClaimantHistory {
        last_submission_at: 1_000,
        burst_bucket_start: 500,
        burst_count: 1,
        max_coverage_ever: 100_000_000,
        total_submissions: 1,
    };
    let over = 100_000_000i128
        .saturating_mul(cfg.coverage_anomaly_multiplier as i128)
        .saturating_add(1);
    let (score, flags) = ClaimsProcessor::score_submission(&cfg, 1_065, &hist, over);
    assert_eq!(score, cfg.coverage_score);
    assert_eq!(flags, 4);
}

#[test]
fn fraud_score_zeroed_when_config_windows_all_off() {
    let cfg = FraudConfig {
        rate_window_secs: 0,
        rate_score: 40,
        burst_window_secs: 0,
        burst_count: 0,
        burst_score: 30,
        coverage_anomaly_multiplier: 0,
        coverage_score: 20,
        fraud_threshold_score: 1,
        mode: FraudMode::Block,
    };
    let hist = ClaimantHistory {
        last_submission_at: 1_000,
        burst_bucket_start: 500,
        burst_count: 10,
        max_coverage_ever: 100_000_000,
        total_submissions: 10,
    };
    let (score, flags) = ClaimsProcessor::score_submission(&cfg, 1_100, &hist, 10_000_000_000);
    assert_eq!(score, 0);
    assert_eq!(flags, 0);
}

#[test]
fn scores_and_flags_add_up_and_saturate() {
    let cfg = FraudConfig { rate_score: u32::MAX, ..strict_block_config() };
    let hist = ClaimantHistory {
        last_submission_at: 1_000,
        burst_bucket_start: 900,
        burst_count: 9,
        max_coverage_ever: i128::MAX / 20,
        total_submissions: 9,
    };
    let (score, flags) = ClaimsProcessor::score_submission(&cfg, 1_010, &hist, i128::MAX);
    assert_eq!(score, u32::MAX);
    assert_eq!(flags, 7);
}

#[test]
fn no_fraud_config_leaves_submission_unchanged() {
    let mut w = deploy();
    w.now = 1_700_000_000;
    let (buyer, pol_id) = w.policy_of_new_buyer();
    w.rainfall(20_000_000);
    assert_eq!(w.cp.get_fraud_config(), None);
    let claim_id = w.submit(buyer, pol_id).unwrap();
    assert_eq!(w.cp.get_fraud_record(claim_id), None);
    let hist = w.cp.get_claimant_history(buyer);
    assert_eq!(hist.total_submissions, 1);
    assert!(hist.last_submission_at > 0);
}

#[test]
fn non_admin_cannot_set_fraud_config() {
    let mut w = deploy();
    let interloper = w.generate();
    assert_eq!(code(w.cp.set_fraud_config(interloper, strict_block_config())), 3);
}

#[test]
fn fraud_threshold_above_max_rejected() {
    let mut w = deploy();
    let mut cfg = strict_block_config();
    cfg.fraud_threshold_score = 101;
    assert_eq!(code(w.cp.set_fraud_config(w.admin, cfg)), 22);
}

fn planted_history(now: u64) -> ClaimantHistory {
    ClaimantHistory {
        last_submission_at: now,
        burst_bucket_start: now,
        burst_count: 1,
        max_coverage_ever: 100_000_000,
        total_submissions: 1,
    }
}

#[test]
fn block_mode_rejects_burst_triggering_submission() {
    let mut w = deploy();
    w.now = 1_700_000_000;
    let (buyer, pol_id) = w.policy_of_new_buyer();
    w.rainfall(20_000_000);
    let mut cfg = strict_block_config();
    cfg.rate_score = 40;
    cfg.fraud_threshold_score = 30;
    w.cp.set_fraud_config(w.admin, cfg).unwrap();
    w.cp.claimant_history.insert(buyer, planted_history(w.now));
    let sent = w.cp.outbox.len();
    assert_eq!(ledger_code(w.submit(buyer, pol_id)), 23);
    assert_eq!(w.cp.outbox.len(), sent);
    assert_eq!(w.pending(), 0);
    assert_eq!(w.cp.get_claimant_history(buyer), planted_history(w.now));
}

#[test]
fn flag_only_mode_records_but_admits_submission() {
    let mut w = deploy();
    w.now = 1_700_000_000;
    let (buyer, pol_id) = w.policy_of_new_buyer();
    w.rainfall(20_000_000);
    let mut cfg = strict_block_config();
    cfg.mode = FraudMode::FlagOnly;
    w.cp.set_fraud_config(w.admin, cfg).unwrap();
    w.cp.claimant_history.insert(buyer, planted_history(w.now));
    let claim_id = w.submit(buyer, pol_id).unwrap();
    let record = w.cp.get_fraud_record(claim_id).unwrap();
    assert_eq!(record.claim_id, claim_id);
    assert!(record.score >= cfg.fraud_threshold_score);
    assert_eq!(record.flags & 1u32, 1u32); // rate rule fired
    let hist = w.cp.get_claimant_history(buyer);
    assert_eq!((hist.burst_count, hist.total_submissions, hist.max_coverage_ever), (2, 2, COVERAGE));
    assert!(w
        .cp
        .outbox
        .iter()
        .any(|e| matches!(e, Effect::Emit(Event::FraudFlagged(f)) if f.claim_id == claim_id)));
}

#[test]
fn a_flagged_burst_is_remembered_as_one() {
    let mut w = deploy();
    w.now = 1_000;
    let cfg = FraudConfig { mode: FraudMode::FlagOnly, rate_window_secs: 0, ..strict_block_config() };
    w.cp.set_fraud_config(w.admin, cfg).unwrap();
    let pid = w.create_crop_product();
    let buyer = w.generate();
    for n in 1..5 {
        let id = w.buy_crop_policy(buyer, pid);
        let before = w.cp.get_claimant_history(buyer);
        let (_, flags) = ClaimsProcessor::score_submission(&cfg, w.now, &before, COVERAGE);
        w.submit(buyer, id).unwrap();
        let after = w.cp.get_claimant_history(buyer);
        assert_eq!(flags & 2 != 0, after.burst_count >= cfg.burst_count);
        assert_eq!(flags & 2 != 0, n >= 3);
    }
}

#[test]
fn a_burst_ends_with_its_window() {
    let mut w = deploy();
    w.now = 1_000;
    w.cp.set_fraud_config(w.admin, FraudConfig { fraud_threshold_score: 0, ..strict_block_config() }).unwrap();
    let pid = w.create_crop_product();
    let buyer = w.generate();
    let ids: Vec<u128> = (0..3).map(|_| w.buy_crop_policy(buyer, pid)).collect();
    w.submit(buyer, ids[0]).unwrap();
    w.now += 10;
    w.submit(buyer, ids[1]).unwrap();
    assert_eq!(w.cp.get_claimant_history(buyer).burst_count, 2);
    assert_eq!(w.cp.get_claimant_history(buyer).burst_bucket_start, 1_000);
    w.now = 1_000 + 24 * 3600;
    w.submit(buyer, ids[2]).unwrap();
    assert_eq!(w.cp.get_claimant_history(buyer).burst_count, 1);
    assert_eq!(w.cp.get_claimant_history(buyer).burst_bucket_start, w.now);
}

// ── Boundary conditions across contracts ──────────────────────────────────────

#[test]
fn test_staleness_threshold_boundary() {
    let mut w = deploy_with(10);
    let (_, pol_id) = w.policy_of_new_buyer();
    w.rainfall(20_000_000);
    w.now += 10;
    let keeper = w.keeper;
    assert_eq!(w.auto(keeper, pol_id), Ok(ClaimResult::Paid));
}

#[test]
fn test_multi_contract_interaction_atomicity() {
    let mut w = deploy();
    let (_, pol_id) = w.policy_of_new_buyer();
    w.rainfall(20_000_000);
    let keeper = w.keeper;
    assert_eq!(w.auto(keeper, pol_id), Ok(ClaimResult::Paid));
    assert_eq!(w.policy(pol_id).status, PolicyStatus::Claimed);
    assert_eq!(w.total_locked(), 0);
}

#[test]
fn test_policy_exactly_at_expiration() {
    let mut w = deploy();
    let (_, pol_id) = w.policy_of_new_buyer();
    w.now = w.policy(pol_id).end_time;
    let keeper = w.keeper;
    assert_eq!(w.auto(keeper, pol_id), Ok(ClaimResult::Expired));
}

#[test]
fn test_oracle_data_at_boundary_threshold() {
    let mut w = deploy();
    let (_, pol_id) = w.policy_of_new_buyer();
    // exactly at the threshold: not less than it
    w.rainfall(50_000_000);
    let keeper = w.keeper;
    assert_eq!(w.auto(keeper, pol_id), Ok(ClaimResult::Rejected));
}

#[test]
fn test_maximum_coverage_boundary() {
    let mut w = deploy();
    let params = CreateProductParams { name: sym("max_cov"), ..crop_params() };
    let pid = w.engine.create_product(w.now, w.admin, params).unwrap();
    let buyer = w.generate();
    w.mint(buyer, 50_000_000_000);
    w.engine_held += 20_000_000_000;
    let pol_id = w.buy(buyer, pid, 10_000_000_000, "kis2606");
    w.rainfall(20_000_000);
    let keeper = w.keeper;
    assert_eq!(w.auto(keeper, pol_id), Ok(ClaimResult::Paid));
}

#[test]
fn test_minimum_coverage_boundary() {
    let mut w = deploy();
    let pid = w.create_crop_product();
    let buyer = w.generate();
    w.mint(buyer, 1_000_000_000);
    w.engine_held += 1_000_000_000;
    let pol_id = w.buy(buyer, pid, 100_000_000, "kis2606");
    w.rainfall(20_000_000);
    let keeper = w.keeper;
    assert_eq!(w.auto(keeper, pol_id), Ok(ClaimResult::Paid));
}

#[test]
fn test_concurrent_claim_submissions() {
    let mut w = deploy();
    let pid = w.create_crop_product();
    let buyers: Vec<Addr> = (0..3).map(|_| w.generate()).collect();
    let policies: Vec<u128> = buyers.iter().map(|b| w.buy_crop_policy(*b, pid)).collect();
    w.rainfall(20_000_000);
    let claims: Vec<u128> = (0..3).map(|i| w.submit(buyers[i], policies[i]).unwrap()).collect();
    assert_ne!(claims[0], claims[1]);
    assert_ne!(claims[1], claims[2]);
    assert_ne!(claims[0], claims[2]);
    let keeper = w.keeper;
    for id in claims {
        assert_eq!(w.process(keeper, id, None), Ok(ClaimResult::Paid));
    }
}

#[test]
fn test_pending_queue_drained_after_settlement() {
    let (mut w, claim_id, _) = pending_claim();
    assert_eq!(w.pending(), 1);
    w.rainfall(20_000_000);
    let keeper = w.keeper;
    assert_eq!(w.process(keeper, claim_id, None), Ok(ClaimResult::Paid));
    assert_eq!(w.pending(), 0, "settled claim must leave the pending queue");
}

#[test]
fn test_initial_version_tracking() {
    let w = deploy();
    assert_eq!(w.cp.get_version(), 1);
}

#[test]
fn test_concurrent_claims_on_different_policies_same_block() {
    let mut w = deploy();
    let pid = w.create_crop_product();
    let (buyer_a, buyer_b) = (w.generate(), w.generate());
    let pol_a = w.buy_crop_policy(buyer_a, pid);
    let pol_b = w.buy_crop_policy(buyer_b, pid);
    w.rainfall(20_000_000);
    let claim_a = w.submit(buyer_a, pol_a).unwrap();
    let claim_b = w.submit(buyer_b, pol_b).unwrap();
    assert_ne!(claim_a, claim_b);
    assert_eq!(w.pending(), 2);
    let keeper = w.keeper;
    assert_eq!(w.process(keeper, claim_a, None), Ok(ClaimResult::Paid));
    assert_eq!(w.process(keeper, claim_b, None), Ok(ClaimResult::Paid));
    assert_eq!(w.pending(), 0);
    assert_eq!(w.balance(buyer_a), 5_000_000_000 - 4_109_589 + COVERAGE);
    assert_eq!(w.balance(buyer_b), 5_000_000_000 - 4_109_589 + COVERAGE);
}

#[test]
fn test_concurrent_duplicate_submission_same_policy_panics() {
    let mut w = deploy();
    let (buyer, pol_id) = w.policy_of_new_buyer();
    w.rainfall(20_000_000);
    w.submit(buyer, pol_id).unwrap();
    assert_eq!(ledger_code(w.submit(buyer, pol_id)), 6);
}

#[test]
fn test_resubmit_after_paid_claim_panics() {
    let (mut w, buyer, claim_id) = paid_claim();
    let pol_id = w.claim(claim_id).policy_id;
    assert_eq!(ledger_code(w.submit(buyer, pol_id)), 6);
}

#[test]
fn test_concurrent_auto_process_same_policy_idempotent() {
    let mut w = deploy();
    let (buyer, pol_id) = w.policy_of_new_buyer();
    w.rainfall(20_000_000);
    let keeper = w.keeper;
    assert_eq!(w.auto(keeper, pol_id), Ok(ClaimResult::Paid));
    assert_eq!(w.auto(keeper, pol_id), Ok(ClaimResult::AlreadyProcessed));
    assert_eq!(w.balance(buyer), 5_000_000_000 - 4_109_589 + COVERAGE);
}

#[test]
fn test_mixed_submit_and_auto_process_same_policy() {
    let (mut w, buyer, claim_id) = paid_claim();
    let pol_id = w.claim(claim_id).policy_id;
    let keeper = w.keeper;
    assert_eq!(w.auto(keeper, pol_id), Ok(ClaimResult::AlreadyProcessed));
    assert_eq!(w.balance(buyer), 5_000_000_000 - 4_109_589 + COVERAGE);
}

// ── Integration ───────────────────────────────────────────────────────────────

fn drought_params() -> CreateProductParams {
    CreateProductParams {
        name: sym("drght"),
        category: sym("crop"),
        oracle_key: sym("kis2606"),
        trigger_type: TriggerType::Threshold,
        oracle_data_type: sym("weather"),
        trigger_threshold: 500_000_000,
        trigger_comparison: TriggerComparison::LessThan,
        coverage_min: 10_000_000_000,
        coverage_max: 1_000_000_000_000,
        premium_rate_bps: 300,
        max_duration_days: 180,
    }
}

fn full_setup() -> (World, u128) {
    let mut w = deploy();
    w.cp.add_keeper(w.admin, w.admin).unwrap();
    w.engine_held += 10_000_000_000_000;
    let pid = w.engine.create_product(w.now, w.admin, drought_params()).unwrap();
    (w, pid)
}

fn farmer_policy(w: &mut World, pid: u128, coverage: i128) -> (Addr, u128) {
    let farmer = w.generate();
    w.mint(farmer, 100_000_000_000);
    let id = w.buy(farmer, pid, coverage, "kis2606");
    (farmer, id)
}

#[test]
fn batch_processes_multiple_pending_claims() {
    let (mut w, pid) = full_setup();
    w.rainfall(30_000_000);
    let (farmer1, p1) = farmer_policy(&mut w, pid, 10_000_000_000);
    let (farmer2, p2) = farmer_policy(&mut w, pid, 20_000_000_000);
    w.submit(farmer1, p1).unwrap();
    w.submit(farmer2, p2).unwrap();
    let admin = w.admin;
    let results = w.batch_auto(admin, 10).unwrap();
    assert_eq!(results.len(), 2);
    for (_, result) in results {
        assert_eq!(result, ClaimResult::Paid);
    }
}

#[test]
fn batch_skips_non_pending_claims() {
    let (mut w, pid) = full_setup();
    w.rainfall(30_000_000);
    let (farmer, p1) = farmer_policy(&mut w, pid, 10_000_000_000);
    w.submit(farmer, p1).unwrap();
    let admin = w.admin;
    w.auto(admin, p1).unwrap();
    assert_eq!(w.batch_auto(admin, 10).unwrap().len(), 0);
}

#[test]
fn batch_limits_are_honoured() {
    let (mut w, pid) = full_setup();
    w.rainfall(30_000_000);
    for _ in 0..5 {
        let (farmer, p) = farmer_policy(&mut w, pid, 10_000_000_000);
        w.submit(farmer, p).unwrap();
    }
    let admin = w.admin;
    assert_eq!(w.batch_auto(admin, 2).unwrap().len(), 2);
    assert_eq!(w.batch_auto(admin, 2).unwrap().len(), 2);
    assert_eq!(w.batch_auto(admin, 2).unwrap().len(), 1);
    assert_eq!(w.batch_auto(admin, 0).unwrap().len(), 0);
}

#[test]
#[should_panic]
fn test_stale_oracle_data_rejected() {
    let (mut w, pid) = full_setup();
    let data_ts = 1_000_000;
    w.now = data_ts;
    w.rainfall(30_000_000);
    let (_, pol_id) = farmer_policy(&mut w, pid, 10_000_000_000);
    w.now = data_ts + 604_800 + 1;
    let admin = w.admin;
    w.auto(admin, pol_id).unwrap();
}

#[test]
fn test_fresh_oracle_data_accepted() {
    let (mut w, pid) = full_setup();
    let data_ts = 1_000_000;
    w.now = data_ts;
    w.rainfall(30_000_000);
    let (_, pol_id) = farmer_policy(&mut w, pid, 10_000_000_000);
    w.now = data_ts + 3_600;
    let admin = w.admin;
    assert_eq!(w.auto(admin, pol_id), Ok(ClaimResult::Paid));
}

#[test]
fn test_equal_comparison() {
    let (mut w, _) = full_setup();
    let params = CreateProductParams {
        name: sym("equal"),
        category: sym("flight"),
        oracle_key: sym("flight1"),
        trigger_threshold: 100_000_000,
        trigger_comparison: TriggerComparison::Equal,
        ..drought_params()
    };
    let pid = w.engine.create_product(w.now, w.admin, params).unwrap();
    let data_ts = 1_000_000;
    w.now = data_ts;
    w.oracle
        .submit_data(w.now, w.oracle_w, sym("weather"), sym("flight1"), 100_000_000, 95, data_ts)
        .unwrap();
    let farmer = w.generate();
    w.mint(farmer, 100_000_000_000);
    let pol_id = w.buy(farmer, pid, 10_000_000_000, "flight1");
    w.now = data_ts + 3_600;
    let admin = w.admin;
    assert_eq!(w.auto(admin, pol_id), Ok(ClaimResult::Paid));
}

#[test]
fn dispute_removes_claim_from_pending_queue() {
    let (mut w, pid) = full_setup();
    let (farmer, pol_id) = farmer_policy(&mut w, pid, 10_000_000_000);
    let claim_id = w.submit(farmer, pol_id).unwrap();
    assert_eq!(w.pending(), 1);
    w.cp.dispute_claim(farmer, claim_id, sym("baddata")).unwrap();
    assert_eq!(w.pending(), 0, "disputed claim must leave the pending queue");
}

#[test]
fn greater_than_triggers_reach_the_oracle() {
    let (mut w, _) = full_setup();
    let params = CreateProductParams {
        name: sym("wind"),
        category: sym("disaster"),
        trigger_threshold: 10,
        trigger_comparison: TriggerComparison::GreaterThan,
        ..drought_params()
    };
    let pid = w.engine.create_product(w.now, w.admin, params).unwrap();
    w.rainfall(11);
    let (_, id) = farmer_policy(&mut w, pid, 10_000_000_000);
    let admin = w.admin;
    assert_eq!(w.auto(admin, id), Ok(ClaimResult::Paid));
}

// ── Partial and delayed payouts ───────────────────────────────────────────────

#[test]
fn a_partial_payout_is_a_share_of_the_coverage() {
    for (bps, result, paid) in [
        (Some(5_000), ClaimResult::PartiallyPaid, 500_000_000),
        (Some(1), ClaimResult::PartiallyPaid, 100_000),
        (Some(10_000), ClaimResult::Paid, COVERAGE),
        (Some(70_000), ClaimResult::Paid, COVERAGE),
        (None, ClaimResult::Paid, COVERAGE),
    ] {
        let mut w = deploy();
        let (buyer, pol_id) = w.policy_of_new_buyer();
        w.rainfall(20_000_000);
        let id = w.submit(buyer, pol_id).unwrap();
        let keeper = w.keeper;
        assert_eq!(w.process(keeper, id, bps), Ok(result));
        assert_eq!(w.claim(id).paid_amount, Some(paid));
    }
}

#[test]
fn a_partially_paid_claim_can_be_disputed() {
    let mut w = deploy();
    let (buyer, pol_id) = w.policy_of_new_buyer();
    w.rainfall(20_000_000);
    let id = w.submit(buyer, pol_id).unwrap();
    let keeper = w.keeper;
    w.process(keeper, id, Some(5_000)).unwrap();
    w.cp.dispute_claim(buyer, id, sym("more")).unwrap();
    assert_eq!(w.claim(id).status, ClaimStatus::Disputed);
}

#[test]
fn a_delayed_payout_is_collected_once() {
    let mut w = deploy();
    assert_eq!(w.cp.get_payout_delay(), 0);
    w.cp.set_payout_delay(w.admin, 100).unwrap();
    assert_eq!(w.cp.get_payout_delay(), 100);
    let (buyer, pol_id) = w.policy_of_new_buyer();
    w.rainfall(20_000_000);
    let keeper = w.keeper;
    let id = w.submit(buyer, pol_id).unwrap();
    assert_eq!(ledger_code(w.payout(id)), 20);
    assert_eq!(ledger_code(w.payout(99)), 4);
    assert_eq!(w.process(keeper, id, None), Ok(ClaimResult::Paid));
    assert_eq!(w.claim(id).payout_ready_at, Some(100));
    assert_eq!(w.balance(buyer), 5_000_000_000 - 4_109_589);
    w.now = 99;
    assert_eq!(ledger_code(w.payout(id)), 20);
    w.now = 100;
    assert_eq!(w.payout(id), Ok(COVERAGE));
    assert_eq!(w.balance(buyer), PAID);
    assert_eq!(w.policy(pol_id).status, PolicyStatus::Claimed);
    assert_eq!(ledger_code(w.payout(id)), 20);
}

// ── Installments ──────────────────────────────────────────────────────────────

#[test]
fn installments_fall_due_one_after_the_other() {
    let (mut w, buyer, id) = paid_claim();
    let keeper = w.keeper;
    let stranger = w.generate();
    assert_eq!(code(w.cp.schedule_installments(0, stranger, id, 1, 1, 1)), 3);
    assert_eq!(code(w.cp.schedule_installments(0, keeper, 99, 1, 1, 1)), 4);
    assert_eq!(code(w.cp.schedule_installments(0, keeper, id, 300_000_000, 4, 10)), 22);
    assert_eq!(code(w.cp.schedule_installments(0, keeper, id, i128::MAX, 4, 10)), 22);
    assert_eq!(code(w.cp.claim_installment(0, buyer, id)), 22);
    w.cp.schedule_installments(0, keeper, id, 250_000_000, 4, 10).unwrap();
    assert_eq!(code(w.cp.claim_installment(9, buyer, id)), 22);
    assert_eq!(code(w.cp.claim_installment(10, stranger, id)), 3);
    assert_eq!(code(w.cp.claim_installment(10, buyer, 99)), 4);
    assert_eq!(w.cp.claim_installment(10, buyer, id), Ok(250_000_000));
    assert_eq!(code(w.cp.claim_installment(19, buyer, id)), 22);
    assert_eq!(w.cp.claim_installment(35, buyer, id), Ok(500_000_000));
    assert_eq!(w.cp.claim_installment(10_000, buyer, id), Ok(250_000_000));
    assert_eq!(code(w.cp.claim_installment(20_000, buyer, id)), 22);
    assert_eq!(w.claim(id).installments.unwrap().paid_count, 4);
}

#[test]
fn installments_without_an_interval_cannot_be_counted() {
    let (mut w, buyer, id) = paid_claim();
    let keeper = w.keeper;
    let stranger = w.generate();
    assert!(w.cp.installment_computable(0, buyer, id));
    w.cp.schedule_installments(5, keeper, id, 1, 4, 0).unwrap();
    assert!(w.cp.installment_computable(4, buyer, id));
    assert!(!w.cp.installment_computable(5, buyer, id));
    assert!(w.cp.installment_computable(5, stranger, id));
    assert_eq!(code(w.cp.claim_installment(5, stranger, id)), 3);
    assert!(w.cp.installment_computable(5, buyer, 99));
    w.cp.pause(w.admin).unwrap();
    assert!(w.cp.installment_computable(5, buyer, id));
    assert_eq!(code(w.cp.claim_installment(5, buyer, id)), 9);
}

#[test]
fn only_paid_claims_get_installments() {
    let (mut w, id, _) = pending_claim();
    let keeper = w.keeper;
    assert_eq!(code(w.cp.schedule_installments(0, keeper, id, 1, 1, 1)), 22);
}

// ── Pause, identity, guardians, administration ────────────────────────────────

#[test]
fn a_paused_processor_settles_nothing() {
    let (mut w, id, buyer) = pending_claim();
    let (admin, keeper) = (w.admin, w.keeper);
    let stranger = w.generate();
    assert_eq!(code(w.cp.pause(stranger)), 3);
    w.cp.pause(admin).unwrap();
    assert!(w.cp.is_paused());
    assert_eq!(ledger_code(w.submit(buyer, 1)), 9);
    assert_eq!(ledger_code(w.process(keeper, id, None)), 9);
    assert_eq!(ledger_code(w.auto(keeper, 1)), 9);
    assert_eq!(ledger_code(w.batch_auto(keeper, 1)), 9);
    assert_eq!(ledger_code(w.payout(id)), 9);
    assert_eq!(code(w.cp.claim_installment(0, buyer, id)), 9);
    assert_eq!(code(w.cp.escalate_claim(u64::MAX, buyer, id)), 9);
    assert_eq!(code(w.cp.schedule_installments(0, keeper, id, 1, 1, 1)), 9);
    w.cp.resume(admin).unwrap();
    assert!(!w.cp.is_paused());
}

#[test]
fn identities_are_required_and_verified() {
    let (mut w, id, _) = pending_claim();
    let admin = w.admin;
    let stranger = w.generate();
    assert_eq!(w.cp.get_identity_requirement(3), None);
    assert_eq!(code(w.cp.require_identity_for_category(stranger, 3, sym("passport"))), 3);
    w.cp.require_identity_for_category(admin, 3, sym("passport")).unwrap();
    assert_eq!(w.cp.get_identity_requirement(3), Some(sym("passport")));
    w.cp.remove_identity_requirement(admin, 3).unwrap();
    assert_eq!(w.cp.get_identity_requirement(3), None);
    assert!(!w.cp.is_identity_verified(id));
    assert_eq!(code(w.cp.verify_claimant_identity(5, admin, 99, sym("passport"))), 4);
    w.cp.verify_claimant_identity(5, admin, id, sym("passport")).unwrap();
    assert!(w.cp.is_identity_verified(id));
    assert!(!w.cp.is_identity_verified(99));
    assert_eq!(w.claim(id).verification_type, Some(sym("passport")));
    assert_eq!(w.claim(id).verification_time, Some(5));
}

#[test]
fn a_claim_without_a_required_identity_is_not_paid() {
    let mut w = deploy();
    let (admin, keeper) = (w.admin, w.keeper);
    let pid = w.create_crop_product();
    let (a, b) = (w.generate(), w.generate());
    let manual = w.buy_crop_policy(a, pid);
    let automatic = w.buy_crop_policy(b, pid);
    w.cp.require_identity_for_category(admin, pid, sym("passport")).unwrap();
    w.rainfall(20_000_000);
    let id = w.submit(a, manual).unwrap();
    assert_eq!(ledger_code(w.process(keeper, id, None)), 21);
    assert_eq!(w.claim(id).status, ClaimStatus::Pending);
    assert_eq!(ledger_code(w.auto(keeper, automatic)), 21);
    assert_eq!(w.cp.get_claim_id_for_policy(automatic), None);
    assert_eq!(w.batch_auto(keeper, 10), Ok(vec![]));
    assert_eq!(w.cp.get_pending_claims(), &vec![id]);
    w.cp.verify_claimant_identity(0, admin, id, sym("passport")).unwrap();
    assert_eq!(w.process(keeper, id, None), Ok(ClaimResult::Paid));
    assert_eq!(w.balance(a), PAID);
    w.cp.remove_identity_requirement(admin, pid).unwrap();
    assert_eq!(w.auto(keeper, automatic), Ok(ClaimResult::Paid));
}

#[test]
fn a_claim_without_a_required_identity_is_rejected_where_the_trigger_is_not_met() {
    let mut w = deploy();
    let (admin, keeper) = (w.admin, w.keeper);
    let pid = w.create_crop_product();
    let (a, b) = (w.generate(), w.generate());
    let manual = w.buy_crop_policy(a, pid);
    let automatic = w.buy_crop_policy(b, pid);
    w.cp.require_identity_for_category(admin, pid, sym("passport")).unwrap();
    w.rainfall(72_000_000);
    let id = w.submit(a, manual).unwrap();
    assert_eq!(w.process(keeper, id, None), Ok(ClaimResult::Rejected));
    assert_eq!(w.claim(id).status, ClaimStatus::Rejected);
    assert!(!w.claim(id).trigger_met);
    assert_eq!(w.claim(id).processed_at, Some(w.now));
    assert_eq!(w.auto(keeper, automatic), Ok(ClaimResult::Rejected));
    assert_eq!(w.pending(), 0);
}

#[test]
fn the_detector_tells_score_and_flags() {
    let mut w = deploy();
    let who = w.generate();
    w.now = 1_030;
    assert_eq!(w.cp.evaluate_fraud(w.now, 1, who, COVERAGE), Ok((0, 0)));
    let cfg = FraudConfig { mode: FraudMode::FlagOnly, ..strict_block_config() };
    w.cp.set_fraud_config(w.admin, cfg).unwrap();
    assert_eq!(w.cp.evaluate_fraud(w.now, 1, who, COVERAGE), Ok((0, 0)));
    assert_eq!(w.cp.get_fraud_record(1), None);
    w.cp.update_claimant_history(who, 1_000, COVERAGE, cfg.burst_window_secs);
    assert_eq!(w.cp.get_claimant_history(who).total_submissions, 1);
    assert_eq!(w.cp.evaluate_fraud(w.now, 7, who, COVERAGE), Ok((40, 1)));
    let record = w.cp.get_fraud_record(7).unwrap();
    assert_eq!((record.claim_id, record.score, record.flags, record.checked_at), (7, 40, 1, 1_030));
    w.cp.set_fraud_config(w.admin, strict_block_config()).unwrap();
    let sent = w.cp.outbox.len();
    assert_eq!(code(w.cp.evaluate_fraud(w.now, 8, who, COVERAGE)), 23);
    assert_eq!(w.cp.get_fraud_record(8), None);
    assert_eq!(w.cp.outbox.len(), sent);
}

#[test]
fn a_delayed_payout_asks_for_the_identity_too() {
    let mut w = deploy();
    let (admin, keeper) = (w.admin, w.keeper);
    w.cp.set_payout_delay(admin, 100).unwrap();
    let (buyer, pol_id) = w.policy_of_new_buyer();
    w.rainfall(20_000_000);
    let id = w.submit(buyer, pol_id).unwrap();
    assert_eq!(w.process(keeper, id, None), Ok(ClaimResult::Paid));
    let product = w.policy(pol_id).product_id;
    w.cp.require_identity_for_category(admin, product, sym("passport")).unwrap();
    w.now = 100;
    assert_eq!(ledger_code(w.payout(id)), 21);
    w.cp.verify_claimant_identity(100, admin, id, sym("passport")).unwrap();
    assert_eq!(w.payout(id), Ok(COVERAGE));
}

#[test]
fn upgrades_wait_for_guardians() {
    let mut w = deploy();
    let admin = w.admin;
    let (g1, g2, g3) = (w.generate(), w.generate(), w.generate());
    assert_eq!(code(w.cp.upgrade(g1, [1; 32], 2)), 3);
    assert_eq!(code(w.cp.upgrade(admin, [1; 32], 1)), 11);
    w.cp.upgrade(admin, [1; 32], 2).unwrap();
    assert_eq!(w.cp.get_version(), 2);
    assert!(w.cp.outbox.contains(&Effect::ReplaceCode([1; 32])));
    assert_eq!(code(w.cp.set_guardians(admin, vec![g1, g2], 3)), 15);
    w.cp.set_guardians(admin, vec![g1, g2], 2).unwrap();
    assert_eq!(w.cp.get_guardians(), &vec![g1, g2]);
    match w.cp.outbox.last() {
        Some(Effect::Emit(Event::GuardiansUpdated { guardians, threshold })) => {
            assert_eq!(guardians.to_list(), vec![g1, g2]);
            assert_eq!(*threshold, 2);
        }
        other => panic!("{:?}", other),
    }
    assert_eq!(w.cp.get_guardian_threshold(), 2);
    assert_eq!(code(w.cp.approve_upgrade(g1, [2; 32])), 14);
    w.cp.upgrade(admin, [2; 32], 3).unwrap();
    assert_eq!(w.cp.get_version(), 2);
    assert!(!w.cp.outbox.contains(&Effect::ReplaceCode([2; 32])));
    assert_eq!(w.cp.get_pending_upgrade().unwrap().new_version, 3);
    assert_eq!(code(w.cp.approve_upgrade(g3, [2; 32])), 12);
    assert_eq!(code(w.cp.approve_upgrade(g1, [3; 32])), 14);
    w.cp.approve_upgrade(g1, [2; 32]).unwrap();
    assert_eq!(code(w.cp.approve_upgrade(g1, [2; 32])), 13);
    assert_eq!(w.cp.get_version(), 2);
    w.cp.approve_upgrade(g2, [2; 32]).unwrap();
    assert_eq!(w.cp.get_version(), 3);
    assert!(w.cp.outbox.contains(&Effect::ReplaceCode([2; 32])));
    assert!(w.cp.get_pending_upgrade().is_none());
    assert_eq!(code(w.cp.cancel_pending_upgrade(admin)), 14);
    w.cp.upgrade(admin, [4; 32], 4).unwrap();
    w.cp.cancel_pending_upgrade(admin).unwrap();
    assert!(w.cp.get_pending_upgrade().is_none());
}

#[test]
fn an_admin_transfer_is_armed_once_and_waits() {
    let mut w = deploy();
    let admin = w.admin;
    let (next, other) = (w.generate(), w.generate());
    let nobody = Addr::new(b"X").unwrap();
    assert_eq!(code(w.cp.propose_new_admin(5, admin, nobody)), 8);
    assert_eq!(code(w.cp.accept_admin(5, next)), 3);
    w.cp.propose_new_admin(5, admin, next).unwrap();
    assert_eq!(w.cp.get_pending_admin(), Some(next));
    assert_eq!(w.cp.get_pending_admin_since(), 5);
    assert_eq!(code(w.cp.propose_new_admin(6, admin, other)), 24);
    assert_eq!(code(w.cp.accept_admin(5 + 48 * 3600 - 1, next)), 16);
    assert_eq!(code(w.cp.accept_admin(u64::MAX, other)), 3);
    w.cp.accept_admin(5 + 48 * 3600, next).unwrap();
    assert_eq!(w.cp.get_admin(), Ok(next));
    assert_eq!(w.cp.get_pending_admin(), None);
    assert_eq!(w.cp.get_pending_admin_since(), 0);
}

#[test]
fn guardians_arm_an_admin_transfer() {
    let mut w = deploy();
    let admin = w.admin;
    let (g1, g2, next) = (w.generate(), w.generate(), w.generate());
    w.cp.set_guardians(admin, vec![g1, g2], 2).unwrap();
    assert_eq!(code(w.cp.approve_admin_change(1, g1, next)), 14);
    w.cp.propose_new_admin(1, admin, next).unwrap();
    assert_eq!(w.cp.get_pending_admin(), None);
    assert_eq!(code(w.cp.approve_admin_change(2, next, next)), 12);
    assert_eq!(code(w.cp.approve_admin_change(2, g1, g1)), 14);
    w.cp.approve_admin_change(2, g1, next).unwrap();
    assert_eq!(code(w.cp.approve_admin_change(3, g1, next)), 13);
    assert_eq!(w.cp.get_pending_admin(), None);
    w.cp.approve_admin_change(7, g2, next).unwrap();
    assert_eq!(w.cp.get_pending_admin(), Some(next));
    assert_eq!(w.cp.get_pending_admin_since(), 7);
}

#[test]
fn every_error_of_the_processor_has_its_number() {
    assert_eq!(Error::PolicyExpired.code(), 10);
    assert_eq!(Error::IdentityVerificationRequired.code(), 21);
    assert_eq!(Error::AdminTransferPending.code(), 24);
}
