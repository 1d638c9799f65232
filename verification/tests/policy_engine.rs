//! The policy engine against a ledger that carries out its effects.

use parashield::policy_engine::types::{
    BatchBuyItem, ContractUpgraded, CreateProductParams, Effect, Error, Event, ExpiryState, Policy,
    PolicyExpiringSoon, PolicyStatus, ProductStatus, TriggerComparison, TriggerType,
};
use parashield::policy_engine::{Payout, PolicyEngine};
use parashield::text::{Addr, Sym};

const COVERAGE: i128 = 1_000_000_000; // 100 USDC (7-decimal)
const DAY: u64 = 86_400;

fn address(kind: u8, n: u8) -> Addr {
    let mut text = [b'A'; 56];
    text[0] = kind;
    text[54] = b'A' + n / 26;
    text[55] = b'A' + n % 26;
    Addr::new(&text).unwrap()
}

fn contract(n: u8) -> Addr {
    address(b'C', n)
}

fn account(n: u8) -> Addr {
    address(b'G', n)
}

fn sym(text: &str) -> Sym {
    Sym::new(text.as_bytes()).unwrap()
}

/// An engine, the token balances of everyone, and the ledger's clock.
struct World {
    engine: PolicyEngine,
    now: u64,
    admin: Addr,
    oracle: Addr,
    usdc: Addr,
    balances: Vec<(Addr, i128)>,
    held: i128,
    done: usize,
    events: Vec<Event>,
    auths: Vec<Addr>,
}

impl World {
    fn new() -> World {
        let (admin, usdc, oracle) = (contract(1), contract(2), contract(3));
        let mut w = World {
            engine: PolicyEngine::new(),
            now: 0,
            admin,
            oracle,
            usdc,
            balances: vec![],
            held: 0,
            done: 0,
            events: vec![],
            auths: vec![],
        };
        assert_eq!(w.engine.initialize(admin, usdc, oracle, true), Ok(()));
        w.settle();
        w
    }

    fn mint(&mut self, who: Addr, amount: i128) {
        let before = self.balance(who);
        self.set_balance(who, before + amount);
    }

    fn balance(&self, who: Addr) -> i128 {
        self.balances.iter().find(|(a, _)| *a == who).map(|(_, b)| *b).unwrap_or(0)
    }

    fn set_balance(&mut self, who: Addr, amount: i128) {
        self.balances.retain(|(a, _)| *a != who);
        self.balances.push((who, amount));
    }

    /// Carry out the effects that are not done yet.
    fn settle(&mut self) {
        while self.done < self.engine.outbox.len() {
            match self.engine.outbox[self.done] {
                Effect::RequireAuth(who) => self.auths.push(who),
                Effect::Collect { token, from, amount } => {
                    assert_eq!(token, self.usdc);
                    assert!(self.balance(from) >= amount, "balance is not sufficient");
                    let rest = self.balance(from) - amount;
                    self.set_balance(from, rest);
                    self.held += amount;
                }
                Effect::Pay { token, to, amount } => {
                    assert_eq!(token, self.usdc);
                    assert!(self.held >= amount, "balance is not sufficient");
                    self.held -= amount;
                    self.mint(to, amount);
                }
                Effect::Emit(event) => self.events.push(event),
                Effect::ReplaceCode(_) => {}
            }
            self.done += 1;
        }
    }

    fn create(&mut self, admin: Addr, params: CreateProductParams) -> Result<u128, Error> {
        let r = self.engine.create_product(self.now, admin, params);
        self.settle();
        r
    }

    fn create_crop_product(&mut self) -> u128 {
        let admin = self.admin;
        self.create(admin, crop_params()).unwrap()
    }

    fn buy(&mut self, buyer: Addr, pid: u128, coverage: i128, days: u32, key: &str) -> Result<u128, Error> {
        let r = self.engine.buy_policy(self.now, buyer, pid, coverage, days, sym(key));
        self.settle();
        r
    }

    fn cancel(&mut self, holder: Addr, id: u128) -> Result<i128, Error> {
        let r = self.engine.cancel_policy(self.now, holder, id);
        self.settle();
        r
    }

    fn pay_claim(&mut self, caller: Addr, id: u128) -> Result<(), Error> {
        let payout = self.engine.claim_payout(caller, id)?;
        let transferred = self.held >= payout.amount;
        let r = self.engine.pay_claim(caller, id, transferred);
        if r.is_ok() {
            self.held -= payout.amount;
            self.mint(payout.to, payout.amount);
        }
        self.settle();
        r
    }

    fn policy(&self, id: u128) -> Policy {
        self.engine.get_policy(id).unwrap()
    }
}

fn crop_params() -> CreateProductParams {
    CreateProductParams {
        name: sym("crop_kism"),
        category: sym("crop"),
        oracle_key: sym("kis2606"),
        trigger_type: TriggerType::Threshold,
        oracle_data_type: sym("weather"),
        trigger_threshold: 50_000_000,
        trigger_comparison: TriggerComparison::LessThan,
        coverage_min: 100_000_000,
        coverage_max: 10_000_000_000,
        premium_rate_bps: 500,
        max_duration_days: 365,
    }
}

fn code<T: std::fmt::Debug>(r: Result<T, Error>) -> u32 {
    r.unwrap_err().code()
}

// ── Initialization ────────────────────────────────────────────────────────────

#[test]
fn test_initialize_sets_admin_and_oracle() {
    let w = World::new();
    assert_eq!(w.engine.get_admin(), Ok(w.admin));
    assert_eq!(w.engine.get_oracle(), Ok(w.oracle));
}

#[test]
fn test_initialize_accepts_any_address_type() {
    for admin in [contract(7), account(7)] {
        let mut engine = PolicyEngine::new();
        assert_eq!(engine.initialize(admin, contract(8), contract(9), true), Ok(()));
        assert_eq!(engine.get_admin(), Ok(admin));
    }
}

#[test]
fn test_test_double_initialize_panics() {
    let mut w = World::new();
    let r = w.engine.initialize(w.admin, w.usdc, w.oracle, true);
    assert_eq!(code(r), 1);
}

#[test]
fn initialize_refuses_bad_addresses_and_tokens() {
    let short = Addr::new(b"GABC").unwrap();
    let muxed = address(b'M', 0);
    for (admin, usdc, oracle) in [
        (short, contract(1), contract(2)),
        (muxed, contract(1), contract(2)),
        (account(0), account(1), contract(2)),
        (account(0), short, contract(2)),
        (account(0), contract(1), account(2)),
    ] {
        let mut engine = PolicyEngine::new();
        assert_eq!(engine.initialize(admin, usdc, oracle, true), Err(Error::InvalidAddress));
        assert!(!engine.initialized);
        assert_eq!(engine.get_admin(), Err(Error::NotInitialized));
        assert_eq!(engine.get_oracle(), Err(Error::NotInitialized));
        assert_eq!(engine.get_usdc_token(), Err(Error::NotInitialized));
    }
    let mut engine = PolicyEngine::new();
    let r = engine.initialize(account(0), contract(1), contract(2), false);
    assert_eq!(code(r), 17);
    assert!(engine.outbox.is_empty());
}

// ── Product management ────────────────────────────────────────────────────────

#[test]
fn test_create_product_returns_id() {
    let mut w = World::new();
    let id = w.create_crop_product();
    assert_eq!(id, 1);
    assert_eq!(w.engine.get_active_products().len(), 1);
}

#[test]
fn test_non_admin_cannot_create_product() {
    let mut w = World::new();
    let r = w.create(contract(50), crop_params());
    assert_eq!(code(r), 3);
}

#[test]
fn test_pause_product_blocks_purchase() {
    let mut w = World::new();
    let pid = w.create_crop_product();
    w.engine.pause_product(w.admin, pid).unwrap();
    let buyer = contract(20);
    w.mint(buyer, 1_000_000_000);
    let r = w.buy(buyer, pid, COVERAGE, 30, "kis2606");
    assert_eq!(code(r), 5);
}

#[test]
fn create_product_refuses_each_bad_parameter() {
    let p = crop_params();
    let cases = [
        (CreateProductParams { premium_rate_bps: 0, ..p }, Error::InvalidPremiumRate),
        (CreateProductParams { premium_rate_bps: 10_001, ..p }, Error::InvalidPremiumRate),
        (CreateProductParams { coverage_min: 0, ..p }, Error::InvalidCoverageRange),
        (CreateProductParams { coverage_max: p.coverage_min, ..p }, Error::InvalidCoverageRange),
        (CreateProductParams { max_duration_days: 0, ..p }, Error::InvalidDurationRange),
        (CreateProductParams { max_duration_days: 3651, ..p }, Error::InvalidDurationRange),
        (CreateProductParams { oracle_key: sym("k1"), ..p }, Error::InvalidOracleKey),
        (CreateProductParams { oracle_key: sym("_abc"), ..p }, Error::InvalidOracleKey),
        (CreateProductParams { oracle_key: sym("abc_"), ..p }, Error::InvalidOracleKey),
        (CreateProductParams { oracle_key: sym("a__c"), ..p }, Error::InvalidOracleKey),
        (CreateProductParams { oracle_key: sym("1234"), ..p }, Error::InvalidOracleKey),
        (CreateProductParams { oracle_key: sym("ab-c"), ..p }, Error::InvalidOracleKey),
        (CreateProductParams { category: sym("motor"), ..p }, Error::InvalidCategory),
    ];
    for (params, error) in cases {
        let mut w = World::new();
        let admin = w.admin;
        assert_eq!(w.create(admin, params), Err(error));
        assert!(w.engine.get_active_products().is_empty());
        assert_eq!(w.engine.get_product(1), Err(Error::ProductNotFound));
    }
    for key in ["abc", "a_1", "x9_Yz", "abcdefghijklmnopqrstuvwxyz012345"] {
        let mut w = World::new();
        let admin = w.admin;
        assert_eq!(w.create(admin, CreateProductParams { oracle_key: sym(key), ..p }), Ok(1));
    }
    let mut fresh = PolicyEngine::new();
    assert_eq!(fresh.create_product(0, contract(1), p), Err(Error::NotInitialized));
}

#[test]
fn the_number_of_products_per_category_is_limited() {
    let mut w = World::new();
    let admin = w.admin;
    assert_eq!(w.engine.get_max_products_per_pool(), 100);
    assert_eq!(w.engine.set_max_products_per_pool(admin, 0), Err(Error::InvalidMaxProducts));
    w.engine.set_max_products_per_pool(admin, 1).unwrap();
    let first = w.create_crop_product();
    let second = CreateProductParams { name: sym("other"), oracle_key: sym("nak2607"), ..crop_params() };
    assert_eq!(w.create(admin, second), Err(Error::TooManyProducts));
    assert_eq!(w.engine.get_pool_product_count(&sym("crop")), 1);
    assert_eq!(w.engine.get_pool_product_count(&sym("defi")), 0);
    w.engine.deprecate_product(admin, first).unwrap();
    assert_eq!(w.engine.get_pool_product_count(&sym("crop")), 0);
    assert_eq!(w.create(admin, second), Ok(2));
    assert!(w.events.iter().any(|e| *e == Event::MaxProductsUpdated { max_products: 1 }));
}

#[test]
fn a_retired_product_stays_retired() {
    let mut w = World::new();
    let admin = w.admin;
    let first = w.create_crop_product();
    w.engine.deprecate_product(admin, first).unwrap();
    let again = CreateProductParams { name: sym("again"), ..crop_params() };
    let second = w.create(admin, again).unwrap();
    assert_eq!(w.engine.deprecate_product(admin, first), Err(Error::ProductNotActive));
    assert_eq!(w.engine.pause_product(admin, first), Err(Error::ProductNotActive));
    assert_eq!(w.engine.get_product(first).unwrap().status, ProductStatus::Deprecated);
    assert_eq!(w.engine.get_pool_product_count(&sym("crop")), 1);
    let third = CreateProductParams { name: sym("third"), ..crop_params() };
    assert_eq!(w.create(admin, third), Err(Error::DuplicateProductKey));
    w.engine.pause_product(admin, second).unwrap();
    assert_eq!(w.engine.pause_product(admin, second), Ok(()));
    assert_eq!(w.engine.require_admin(&admin), Ok(()));
    assert_eq!(w.engine.require_admin(&account(9)), Err(Error::Unauthorized));
    assert_eq!(PolicyEngine::new().require_admin(&admin), Err(Error::NotInitialized));
}

// ── Policy purchase ───────────────────────────────────────────────────────────

#[test]
fn test_buy_policy_transfers_premium() {
    let mut w = World::new();
    let pid = w.create_crop_product();
    let buyer = contract(20);
    w.mint(buyer, 1_000_000_000);
    let buyer_before = w.balance(buyer);

    let duration_days = 30u32;
    let expected_premium = COVERAGE * 500 * duration_days as i128 / 365 / 10_000;
    w.buy(buyer, pid, COVERAGE, duration_days, "kis2606").unwrap();

    assert_eq!(buyer_before - w.balance(buyer), expected_premium);
    assert_eq!(w.held, expected_premium);
    assert_eq!(expected_premium, 4_109_589);
}

#[test]
fn test_buy_policy_records_correct_fields() {
    let mut w = World::new();
    let pid = w.create_crop_product();
    let buyer = contract(20);
    w.mint(buyer, 1_000_000_000);

    let duration_days = 30u32;
    let expected_premium = COVERAGE * 500 * duration_days as i128 / 365 / 10_000;
    w.now = 1_748_736_000;

    let policy_id = w.buy(buyer, pid, COVERAGE, duration_days, "kis2606").unwrap();
    let policy = w.policy(policy_id);

    assert_eq!(policy.policyholder, buyer);
    assert_eq!(policy.coverage_amount, COVERAGE);
    assert_eq!(policy.premium_paid, expected_premium);
    assert_eq!(policy.status, PolicyStatus::Active);
    assert_eq!(policy.end_time, 1_748_736_000 + duration_days as u64 * 86_400);
    assert_eq!(policy.oracle_data_type, sym("weather"));
    assert_eq!(policy.oracle_key, sym("kis2606"));
}

#[test]
fn test_buy_policy_appears_in_user_list() {
    let mut w = World::new();
    let pid = w.create_crop_product();
    let buyer = contract(20);
    w.mint(buyer, 5_000_000_000);
    w.buy(buyer, pid, COVERAGE, 30, "kis2606").unwrap();
    w.buy(buyer, pid, COVERAGE, 60, "kis2607").unwrap();
    assert_eq!(w.engine.get_user_policies(buyer, 0, 10).len(), 2);
}

#[test]
fn test_coverage_below_min_panics() {
    let mut w = World::new();
    let pid = w.create_crop_product();
    let buyer = contract(20);
    w.mint(buyer, 1_000_000_000);
    // coverage_min is 100_000_000; 50_000_000 (5 USDC) is below it
    let r = w.buy(buyer, pid, 50_000_000, 30, "kis2606");
    assert_eq!(code(r), 8);
}

#[test]
fn test_duration_above_max_panics() {
    let mut w = World::new();
    let pid = w.create_crop_product();
    let buyer = contract(20);
    w.mint(buyer, 1_000_000_000);
    // max_duration_days is 365; request 400 days
    let r = w.buy(buyer, pid, COVERAGE, 400, "kis2606");
    assert_eq!(code(r), 9);
}

#[test]
fn purchases_out_of_range_are_refused() {
    let mut w = World::new();
    let admin = w.admin;
    let wide = CreateProductParams { coverage_max: 2_000_000_000_000, ..crop_params() };
    let pid = w.create(admin, wide).unwrap();
    let buyer = contract(20);
    assert_eq!(w.buy(buyer, 9, COVERAGE, 30, "kis2606"), Err(Error::ProductNotFound));
    assert_eq!(w.buy(buyer, pid, 1_000_000_000_001, 30, "kis2606"), Err(Error::CoverageOutOfRange));
    assert_eq!(w.buy(buyer, pid, COVERAGE, 0, "kis2606"), Err(Error::DurationTooLong));
    w.now = u64::MAX - 10;
    assert_eq!(w.buy(buyer, pid, COVERAGE, 30, "kis2606"), Err(Error::CoverageOutOfRange));
    w.now = 0;
    w.engine.usdc_token = None;
    assert_eq!(w.buy(buyer, pid, COVERAGE, 30, "kis2606"), Err(Error::NotInitialized));
    assert!(w.engine.get_user_policies(buyer, 0, 10).is_empty());
}

// ── Policy cancellation ───────────────────────────────────────────────────────

#[test]
fn test_cancel_policy_refunds_premium() {
    let mut w = World::new();
    let pid = w.create_crop_product();
    let buyer = contract(20);
    w.mint(buyer, 1_000_000_000);
    let buyer_before = w.balance(buyer);

    let policy_id = w.buy(buyer, pid, COVERAGE, 30, "kis2606").unwrap();
    w.cancel(buyer, policy_id).unwrap();

    assert_eq!(w.balance(buyer), buyer_before); // premium returned in full
    assert_eq!(w.policy(policy_id).status, PolicyStatus::Cancelled);
}

#[test]
fn test_non_policyholder_cannot_cancel() {
    let mut w = World::new();
    let pid = w.create_crop_product();
    let buyer = contract(20);
    w.mint(buyer, 1_000_000_000);
    let policy_id = w.buy(buyer, pid, COVERAGE, 30, "kis2606").unwrap();
    let r = w.cancel(contract(21), policy_id);
    assert_eq!(code(r), 3);
}

#[test]
fn a_cancelled_policy_refunds_what_is_left() {
    for (elapsed, refund) in [(0, 4_109_589), (15 * DAY, 2_054_795), (30 * DAY, 0), (99 * DAY, 0)] {
        let mut w = World::new();
        let pid = w.create_crop_product();
        let buyer = contract(20);
        w.mint(buyer, 1_000_000_000);
        let id = w.buy(buyer, pid, COVERAGE, 30, "kis2606").unwrap();
        w.now = elapsed;
        assert_eq!(w.cancel(buyer, id), Ok(refund));
        assert_eq!(w.balance(buyer), 1_000_000_000 - 4_109_589 + refund);
        assert_eq!(w.cancel(buyer, id), Err(Error::PolicyNotActive));
        assert!(w.engine.get_user_policies(buyer, 0, 10).is_empty());
    }
}

#[test]
fn cancelling_refuses_what_it_cannot_do() {
    let mut w = World::new();
    let pid = w.create_crop_product();
    let buyer = contract(20);
    w.mint(buyer, 1_000_000_000);
    let id = w.buy(buyer, pid, COVERAGE, 30, "kis2606").unwrap();
    assert_eq!(w.cancel(buyer, 77), Err(Error::PolicyNotFound));
    let mut policy = w.policy(id);
    policy.premium_paid = i128::MAX;
    w.engine.policies.insert(id, policy);
    w.now = 2;
    assert_eq!(w.cancel(buyer, id), Err(Error::Overflow));
    w.now = 0;
    w.engine.usdc_token = None;
    assert_eq!(w.cancel(buyer, id), Err(Error::NotInitialized));
    assert_eq!(w.policy(id).status, PolicyStatus::Active);
}

// ── Double-processing guard ───────────────────────────────────────────────────

#[test]
fn test_double_pay_claim_panics_with_already_claimed() {
    let mut w = World::new();
    let pid = w.create_crop_product();
    let buyer = contract(20);
    w.mint(buyer, 10_000_000_000);
    w.held += 10_000_000_000;
    let claims_processor = contract(30);
    w.engine.set_claims_processor(w.admin, claims_processor).unwrap();
    let policy_id = w.buy(buyer, pid, COVERAGE, 30, "kis2606").unwrap();

    // First call: succeeds (Active → Claimed)
    w.pay_claim(claims_processor, policy_id).unwrap();
    // Second call: AlreadyClaimed (#11)
    let r = w.pay_claim(claims_processor, policy_id);
    assert_eq!(code(r), 11);
    assert_eq!(w.engine.expire_policy(claims_processor, policy_id), Err(Error::AlreadyClaimed));
}

#[test]
fn test_double_expire_policy_panics_with_already_expired() {
    let mut w = World::new();
    let pid = w.create_crop_product();
    let buyer = contract(20);
    w.mint(buyer, 10_000_000_000);
    let claims_processor = contract(30);
    w.engine.set_claims_processor(w.admin, claims_processor).unwrap();
    let policy_id = w.buy(buyer, pid, COVERAGE, 30, "kis2606").unwrap();

    // First call: succeeds (Active → Expired)
    w.engine.expire_policy(claims_processor, policy_id).unwrap();
    // Second call: AlreadyExpired (#12)
    let r = w.engine.expire_policy(claims_processor, policy_id);
    assert_eq!(code(r), 12);
    assert_eq!(w.pay_claim(claims_processor, policy_id), Err(Error::AlreadyExpired));
}

#[test]
fn only_the_claims_processor_settles() {
    let mut w = World::new();
    let pid = w.create_crop_product();
    let buyer = contract(20);
    w.mint(buyer, 10_000_000_000);
    let id = w.buy(buyer, pid, COVERAGE, 30, "kis2606").unwrap();
    let cp = contract(30);
    assert_eq!(w.engine.expire_policy(cp, id), Err(Error::ClaimsProcessorNotSet));
    assert_eq!(w.engine.claim_payout(cp, id), Err(Error::ClaimsProcessorNotSet));
    w.engine.set_claims_processor(w.admin, cp).unwrap();
    assert_eq!(w.engine.expire_policy(buyer, id), Err(Error::Unauthorized));
    assert_eq!(w.engine.pay_claim(buyer, id, true), Err(Error::Unauthorized));
    assert_eq!(w.engine.pay_claim(cp, 99, true), Err(Error::PolicyNotFound));
    assert_eq!(
        w.engine.claim_payout(cp, id),
        Ok(Payout { token: w.usdc, to: buyer, amount: COVERAGE })
    );
    w.cancel(buyer, id).unwrap();
    assert_eq!(w.engine.expire_policy(cp, id), Err(Error::PolicyNotActive));
    assert_eq!(w.engine.pay_claim(cp, id, true), Err(Error::PolicyNotActive));
}

/// A purchase without the funds for it does not stand.
#[test]
#[should_panic]
fn test_buy_policy_without_funds_panics() {
    let mut w = World::new();
    let pid = w.create_crop_product();
    let broke_buyer = contract(20);
    let _ = w.buy(broke_buyer, pid, COVERAGE, 30, "kis2606");
}

// ── trigger_threshold bounds ──────────────────────────────────────────────────

fn create_with_threshold(trigger_threshold: i128) -> Result<u128, Error> {
    let mut w = World::new();
    let admin = w.admin;
    w.create(admin, CreateProductParams { name: sym("bad"), trigger_threshold, ..crop_params() })
}

#[test]
fn test_create_product_zero_threshold_panics() {
    assert_eq!(code(create_with_threshold(0)), 14);
}

#[test]
fn test_create_product_negative_threshold_panics() {
    assert_eq!(code(create_with_threshold(-1)), 14);
}

#[test]
fn test_create_product_overflow_threshold_panics() {
    assert_eq!(code(create_with_threshold(i128::MAX)), 14);
    assert_eq!(create_with_threshold(1_000_000_000_000_000_000_000), Ok(1));
}

// ── Product category/oracle_key uniqueness ────────────────────────────────────

#[test]
fn test_duplicate_category_oracle_key_panics() {
    let mut w = World::new();
    let admin = w.admin;
    w.create(admin, CreateProductParams { name: sym("crop_k_a"), ..crop_params() }).unwrap();
    let r = w.create(
        admin,
        CreateProductParams {
            name: sym("crop_k_b"),
            trigger_threshold: 60_000_000,
            premium_rate_bps: 600,
            ..crop_params()
        },
    );
    assert_eq!(code(r), 15);
}

#[test]
fn test_different_oracle_keys_same_category_succeeds() {
    let mut w = World::new();
    let admin = w.admin;
    w.create(admin, CreateProductParams { name: sym("crop_kis"), ..crop_params() }).unwrap();
    w.create(
        admin,
        CreateProductParams {
            name: sym("crop_nak"),
            oracle_key: sym("nak2607"),
            trigger_threshold: 60_000_000,
            premium_rate_bps: 600,
            ..crop_params()
        },
    )
    .unwrap();
    assert_eq!(w.engine.get_active_products().len(), 2);
}

#[test]
fn test_deprecated_product_key_can_be_reused() {
    let mut w = World::new();
    let admin = w.admin;
    let a = w.create(admin, CreateProductParams { name: sym("crop_k_v1"), ..crop_params() }).unwrap();
    w.engine.deprecate_product(admin, a).unwrap();
    w.create(
        admin,
        CreateProductParams {
            name: sym("crop_k_v2"),
            trigger_threshold: 60_000_000,
            premium_rate_bps: 600,
            ..crop_params()
        },
    )
    .unwrap();
    assert_eq!(w.engine.get_active_products().len(), 1);
}

#[test]
fn test_premium_matches_formula() {
    let mut w = World::new();
    let admin = w.admin;
    let rate_bps = 1000;
    let pid = w.create(admin, CreateProductParams { premium_rate_bps: rate_bps, ..crop_params() }).unwrap();
    let buyer = contract(20);
    // 1000 USDC in stroops
    let coverage = 10_000_000_000i128;
    let duration_days = 30u32;
    let expected_premium = coverage * rate_bps as i128 * duration_days as i128 / 365 / 10_000;
    w.mint(buyer, expected_premium + 1_000_000_000);
    let buyer_before = w.balance(buyer);
    w.buy(buyer, pid, coverage, duration_days, "kis2606").unwrap();
    assert_eq!(buyer_before - w.balance(buyer), expected_premium);
    assert_eq!(w.held, expected_premium);
    assert_eq!(expected_premium, 82_191_780);
}

#[test]
fn product_ids_are_unique_and_monotone() {
    let mut w = World::new();
    let admin = w.admin;
    let mut last = 0;
    for (name, key) in [("prod1", "key1"), ("prod2", "key2"), ("prod3", "key3")] {
        let params = CreateProductParams { name: sym(name), oracle_key: sym(key), ..crop_params() };
        let id = w.create(admin, params).unwrap();
        assert!(id > last);
        last = id;
    }
}

// ── Product names ─────────────────────────────────────────────────────────────

fn named(name: &str, category: &str, key: &str) -> CreateProductParams {
    CreateProductParams {
        name: sym(name),
        category: sym(category),
        oracle_key: sym(key),
        ..crop_params()
    }
}

#[test]
fn distinct_names_are_accepted() {
    let mut w = World::new();
    let admin = w.admin;
    let a = w.create(admin, named("rain", "crop", "key_a")).unwrap();
    let b = w.create(admin, named("drought", "crop", "key_b")).unwrap();
    assert_ne!(a, b);
}

#[test]
fn duplicate_name_same_category_is_rejected() {
    let mut w = World::new();
    let admin = w.admin;
    w.create(admin, named("rain", "crop", "key_a")).unwrap();
    let r = w.create(admin, named("rain", "crop", "key_b"));
    assert_eq!(code(r), 34);
}

#[test]
fn duplicate_name_across_categories_is_rejected() {
    let mut w = World::new();
    let admin = w.admin;
    w.create(admin, named("rain", "crop", "key_a")).unwrap();
    let r = w.create(admin, named("rain", "flight", "key_b"));
    assert_eq!(code(r), 34);
}

#[test]
fn rejected_duplicate_does_not_consume_a_slot_or_id() {
    let mut w = World::new();
    let admin = w.admin;
    let first = w.create(admin, named("rain", "crop", "key_a")).unwrap();
    let dup = w.create(admin, named("rain", "crop", "key_b"));
    assert!(dup.is_err());
    let next = w.create(admin, named("hail", "crop", "key_b")).unwrap();
    assert_eq!(next, first + 1);
}

// ── Product categories ────────────────────────────────────────────────────────

#[test]
fn every_supported_category_is_accepted() {
    let mut w = World::new();
    let admin = w.admin;
    w.create(admin, named("p_crop", "crop", "key_a")).unwrap();
    w.create(admin, named("p_flight", "flight", "key_b")).unwrap();
    w.create(admin, named("p_disast", "disaster", "key_c")).unwrap();
    w.create(admin, named("p_health", "health", "key_d")).unwrap();
    w.create(admin, named("p_defi", "defi", "key_e")).unwrap();
}

#[test]
fn unknown_category_is_rejected() {
    let mut w = World::new();
    let admin = w.admin;
    let r = w.create(admin, named("p_bad", "invalid", "key_a"));
    assert_eq!(code(r), 36);
}

// ── Emergency pause, product lifecycle, queries ───────────────────────────────

fn basic_params() -> CreateProductParams {
    CreateProductParams {
        name: sym("crop"),
        category: sym("crop"),
        oracle_key: sym("kis2606"),
        trigger_type: TriggerType::Threshold,
        oracle_data_type: sym("weather"),
        trigger_threshold: 500_000_000,
        trigger_comparison: TriggerComparison::LessThan,
        coverage_min: 1_000_000_000,
        coverage_max: 1_000_000_000_000,
        premium_rate_bps: 300,
        max_duration_days: 90,
    }
}

fn funded_world() -> (World, Addr) {
    let mut w = World::new();
    let user = contract(40);
    w.mint(user, 100_000_000_000);
    w.held += 10_000_000_000_000;
    (w, user)
}

#[test]
fn is_paused_defaults_to_false() {
    let (w, _) = funded_world();
    assert!(!w.engine.is_paused());
}

#[test]
fn emergency_pause_sets_paused_flag() {
    let (mut w, _) = funded_world();
    w.engine.emergency_pause(w.admin).unwrap();
    assert!(w.engine.is_paused());
}

#[test]
fn emergency_resume_clears_paused_flag() {
    let (mut w, _) = funded_world();
    w.engine.emergency_pause(w.admin).unwrap();
    w.engine.emergency_resume(w.admin).unwrap();
    assert!(!w.engine.is_paused());
}

#[test]
fn non_admin_cannot_pause() {
    let (mut w, user) = funded_world();
    assert_eq!(code(w.engine.emergency_pause(user)), 3);
    assert_eq!(code(w.engine.emergency_resume(user)), 3);
}

#[test]
fn a_paused_engine_sells_and_transfers_nothing() {
    let (mut w, user) = funded_world();
    let admin = w.admin;
    let pid = w.create(admin, basic_params()).unwrap();
    let id = w.buy(user, pid, 2_000_000_000, 30, "kis2606").unwrap();
    w.engine.emergency_pause(admin).unwrap();
    assert_eq!(w.buy(user, pid, 2_000_000_000, 30, "kis2606"), Err(Error::Unauthorized));
    assert_eq!(w.engine.transfer_policy(user, contract(41), id), Err(Error::Unauthorized));
    let item = BatchBuyItem {
        product_id: pid,
        coverage_amount: 2_000_000_000,
        duration_days: 30,
        oracle_key: sym("kis2606"),
    };
    assert_eq!(w.engine.batch_buy_policy(0, user, &vec![item]), Err(Error::Unauthorized));
    assert_eq!(w.cancel(user, id), Ok(w_premium(2_000_000_000, 300, 30)));
}

fn w_premium(coverage: i128, bps: i128, days: i128) -> i128 {
    coverage * bps * days / 365 / 10_000
}

#[test]
fn deprecate_product_removes_from_active_list() {
    let (mut w, _) = funded_world();
    let admin = w.admin;
    let prod_id = w.create(admin, basic_params()).unwrap();
    assert_eq!(w.engine.get_active_products().len(), 1);
    w.engine.deprecate_product(admin, prod_id).unwrap();
    assert_eq!(w.engine.get_active_products().len(), 0);
    assert_eq!(w.engine.get_product(prod_id).unwrap().status, ProductStatus::Deprecated);
}

#[test]
fn pause_product_removes_from_active_list() {
    let (mut w, _) = funded_world();
    let admin = w.admin;
    let prod_id = w.create(admin, basic_params()).unwrap();
    assert_eq!(w.engine.get_active_products().len(), 1);
    w.engine.pause_product(admin, prod_id).unwrap();
    assert_eq!(w.engine.get_product(prod_id).unwrap().status, ProductStatus::Paused);
    assert_eq!(w.engine.get_active_products().len(), 0);
    assert_eq!(w.engine.pause_product(admin, 9), Err(Error::ProductNotFound));
    assert_eq!(w.engine.deprecate_product(admin, 9), Err(Error::ProductNotFound));
}

#[test]
fn cancel_policy_returns_premium_to_holder() {
    let (mut w, user) = funded_world();
    let admin = w.admin;
    let prod_id = w.create(admin, basic_params()).unwrap();
    let policy_id = w.buy(user, prod_id, 10_000_000_000, 30, "kis2606").unwrap();
    w.cancel(user, policy_id).unwrap();
    assert_eq!(w.policy(policy_id).status, PolicyStatus::Cancelled);
}

#[test]
fn get_user_policies_tracks_multiple_policies() {
    let (mut w, user) = funded_world();
    let admin = w.admin;
    let prod_id = w.create(admin, basic_params()).unwrap();
    w.buy(user, prod_id, 2_000_000_000, 30, "kis2606").unwrap();
    w.buy(user, prod_id, 3_000_000_000, 30, "kis2606").unwrap();
    let p1 = w.engine.get_user_policies(user, 0, 1);
    assert_eq!(p1.len(), 1);
    let p2 = w.engine.get_user_policies(user, 1, 1);
    assert_eq!(p2.len(), 1);
    assert_ne!(p1[0], p2[0]);
    let p3 = w.engine.get_user_policies(user, 2, 1);
    assert_eq!(p3.len(), 0);
    assert_eq!(w.engine.get_user_policies(user, 0, 9), vec![1, 2]);
}

#[test]
fn test_pay_claim_insufficient_funds_reverts_policy_active() {
    let mut w = World::new();
    let user = contract(40);
    w.mint(user, 100_000_000_000);
    let admin = w.admin;
    let prod_id = w.create(admin, basic_params()).unwrap();
    let policy_id = w.buy(user, prod_id, 10_000_000_000, 30, "kis2606").unwrap();
    let claims_processor = contract(30);
    w.engine.set_claims_processor(admin, claims_processor).unwrap();
    let res = w.pay_claim(claims_processor, policy_id);
    assert_eq!(res, Err(Error::InsufficientPool));
    assert_eq!(w.policy(policy_id).status, PolicyStatus::Active);
}

#[test]
fn a_paid_claim_moves_the_coverage() {
    let (mut w, user) = funded_world();
    let admin = w.admin;
    let pid = w.create(admin, basic_params()).unwrap();
    let id = w.buy(user, pid, 10_000_000_000, 30, "kis2606").unwrap();
    let before = w.balance(user);
    let cp = contract(30);
    w.engine.set_claims_processor(admin, cp).unwrap();
    w.pay_claim(cp, id).unwrap();
    assert_eq!(w.balance(user) - before, 10_000_000_000);
    assert_eq!(w.policy(id).status, PolicyStatus::Claimed);
    assert!(w.engine.get_user_policies(user, 0, 10).is_empty());
    assert!(w.auths.contains(&cp));
    assert_eq!(
        w.events.last(),
        Some(&Event::ClaimPaid { policy_id: id, policyholder: user, coverage_amount: 10_000_000_000 })
    );
}

// ── Transfers ─────────────────────────────────────────────────────────────────

#[test]
fn a_policy_changes_hands() {
    let (mut w, user) = funded_world();
    let admin = w.admin;
    let pid = w.create(admin, basic_params()).unwrap();
    let id = w.buy(user, pid, 2_000_000_000, 30, "kis2606").unwrap();
    let heir = account(5);
    assert_eq!(w.engine.transfer_policy(heir, user, id), Err(Error::Unauthorized));
    assert_eq!(w.engine.transfer_policy(user, heir, 8), Err(Error::PolicyNotFound));
    let nobody = Addr::new(b"G").unwrap();
    assert_eq!(w.engine.transfer_policy(user, nobody, id), Err(Error::InvalidAddress));
    let before = w.events.len();
    w.engine.transfer_policy(user, user, id).unwrap();
    w.settle();
    assert_eq!(w.events.len(), before);
    assert_eq!(w.engine.get_user_policies(user, 0, 5), vec![id]);
    w.engine.transfer_policy(user, heir, id).unwrap();
    w.settle();
    assert!(w.auths.contains(&user) && w.auths.contains(&heir));
    assert_eq!(w.policy(id).policyholder, heir);
    assert!(w.engine.get_user_policies(user, 0, 5).is_empty());
    assert_eq!(w.engine.get_user_policies(heir, 0, 5), vec![id]);
    w.cancel(heir, id).unwrap();
    assert_eq!(w.engine.transfer_policy(heir, user, id), Err(Error::PolicyNotActive));
}

// ── Batches ───────────────────────────────────────────────────────────────────

fn item(pid: u128, coverage_amount: i128) -> BatchBuyItem {
    BatchBuyItem { product_id: pid, coverage_amount, duration_days: 30, oracle_key: sym("kis2606") }
}

#[test]
fn a_batch_buys_all_or_nothing() {
    let (mut w, user) = funded_world();
    let admin = w.admin;
    let pid = w.create(admin, basic_params()).unwrap();
    assert_eq!(w.engine.batch_buy_policy(0, user, &vec![]), Err(Error::EmptyBatch));
    let many = vec![item(pid, 2_000_000_000); 21];
    assert_eq!(w.engine.batch_buy_policy(0, user, &many), Err(Error::BatchTooLarge));
    let sent = w.engine.outbox.len();
    let bad = vec![item(pid, 2_000_000_000), item(pid, 1), item(99, 2_000_000_000)];
    assert_eq!(w.engine.batch_buy_policy(0, user, &bad), Err(Error::CoverageOutOfRange));
    assert_eq!(w.engine.outbox.len(), sent);
    assert!(w.engine.get_user_policies(user, 0, 50).is_empty());
    let good = vec![item(pid, 2_000_000_000), item(pid, 3_000_000_000)];
    assert_eq!(w.engine.batch_buy_policy(0, user, &good), Ok(vec![1, 2]));
    w.settle();
    assert_eq!(w.engine.get_user_policies(user, 0, 50), vec![1, 2]);
    let paid = w_premium(2_000_000_000, 300, 30) + w_premium(3_000_000_000, 300, 30);
    assert_eq!(100_000_000_000 - w.balance(user), paid);
    assert_eq!(w.engine.batch_buy_policy(0, user, &vec![item(pid, 2_000_000_000); 20]).unwrap().len(), 20);
}

// ── Statistics ────────────────────────────────────────────────────────────────

#[test]
fn stats_add_up_all_policies_of_a_product() {
    let (mut w, user) = funded_world();
    let admin = w.admin;
    let pid = w.create(admin, basic_params()).unwrap();
    let other = CreateProductParams { name: sym("b"), oracle_key: sym("nak2607"), ..basic_params() };
    let other = w.create(admin, other).unwrap();
    let first = w.buy(user, pid, 2_000_000_000, 30, "kis2606").unwrap();
    w.buy(user, other, 7_000_000_000, 30, "kis2606").unwrap();
    w.buy(user, pid, 3_000_000_000, 30, "kis2606").unwrap();
    w.cancel(user, first).unwrap();
    let stats = w.engine.get_product_stats(pid);
    assert_eq!(stats.total_policies, 2);
    assert_eq!(stats.active_policies, 1);
    assert_eq!(stats.total_coverage, 5_000_000_000);
    let premiums = w_premium(2_000_000_000, 300, 30) + w_premium(3_000_000_000, 300, 30);
    assert_eq!(stats.total_premium_collected, premiums);
    let none = w.engine.get_product_stats(77);
    assert_eq!((none.product_id, none.total_policies, none.total_coverage), (77, 0, 0));
}

// ── Expiry ────────────────────────────────────────────────────────────────────

#[test]
fn expiry_is_reported_and_announced_once() {
    let (mut w, user) = funded_world();
    let admin = w.admin;
    let pid = w.create(admin, basic_params()).unwrap();
    let id = w.buy(user, pid, 2_000_000_000, 30, "kis2606").unwrap();
    assert_eq!(w.engine.get_expiry_warning_window(), 7 * DAY);
    let info = w.engine.get_policy_expiry_info(0, id).unwrap();
    assert_eq!((info.state, info.seconds_remaining, info.warned), (ExpiryState::Active, 30 * DAY, false));
    assert_eq!(w.engine.notify_policy_expiring(22 * DAY, id), Err(Error::NotExpiringSoon));
    assert_eq!(w.engine.notify_policy_expiring(0, 99), Err(Error::PolicyNotFound));
    assert_eq!(w.engine.get_policy_expiry_info(0, 99), Err(Error::PolicyNotFound));
    let info = w.engine.get_policy_expiry_info(23 * DAY, id).unwrap();
    assert_eq!(info.state, ExpiryState::ExpiringSoon);
    w.engine.notify_policy_expiring(23 * DAY, id).unwrap();
    w.settle();
    assert_eq!(
        w.events.last(),
        Some(&Event::PolicyExpiringSoon(PolicyExpiringSoon {
            policy_id: id,
            policyholder: user,
            product_id: pid,
            coverage_amount: 2_000_000_000,
            end_time: 30 * DAY,
            seconds_remaining: 7 * DAY,
        }))
    );
    assert_eq!(w.engine.notify_policy_expiring(24 * DAY, id), Err(Error::NotExpiringSoon));
    let info = w.engine.get_policy_expiry_info(30 * DAY, id).unwrap();
    assert_eq!((info.state, info.seconds_remaining, info.warned), (ExpiryState::Lapsed, 0, true));
    w.cancel(user, id).unwrap();
    assert_eq!(w.engine.get_policy_expiry_info(0, id).unwrap().state, ExpiryState::NotActive);
    assert_eq!(w.engine.notify_policy_expiring(24 * DAY, id), Err(Error::NotExpiringSoon));
}

#[test]
fn a_sweep_announces_each_due_policy_once() {
    let (mut w, user) = funded_world();
    let admin = w.admin;
    let pid = w.create(admin, basic_params()).unwrap();
    for days in [10, 60, 12, 90, 5] {
        w.buy(user, pid, 2_000_000_000, days, "kis2606").unwrap();
    }
    assert_eq!(w.engine.notify_expiring_policies(5 * DAY, user, 1), 1);
    assert_eq!(w.engine.notify_expiring_policies(5 * DAY, user, 0), 1);
    assert_eq!(w.engine.notify_expiring_policies(5 * DAY, user, 0), 0);
    assert_eq!(w.engine.notify_expiring_policies(5 * DAY, user, 9), 0);
    assert_eq!(w.engine.notify_expiring_policies(5 * DAY, contract(77), 0), 0);
    for _ in 0..60 {
        w.buy(user, pid, 1_000_000_000, 3, "kis2606").unwrap();
    }
    assert_eq!(w.engine.notify_expiring_policies(0, user, 0), 46);
    assert_eq!(w.engine.notify_expiring_policies(0, user, 50), 15);
}

#[test]
fn the_warning_window_can_be_set() {
    let (mut w, user) = funded_world();
    let admin = w.admin;
    assert_eq!(w.engine.set_expiry_warning_window(admin, 0), Err(Error::InvalidWarningWindow));
    assert_eq!(w.engine.set_expiry_warning_window(user, 5), Err(Error::Unauthorized));
    w.engine.set_expiry_warning_window(admin, 5).unwrap();
    assert_eq!(w.engine.get_expiry_warning_window(), 5);
}

// ── Admin transfer ────────────────────────────────────────────────────────────

#[test]
fn an_admin_transfer_waits_for_its_timelock() {
    let (mut w, _) = funded_world();
    let (admin, next) = (w.admin, contract(60));
    assert_eq!(w.engine.accept_admin(0, next), Err(Error::Unauthorized));
    w.engine.propose_new_admin(1_000, admin, next).unwrap();
    assert_eq!(w.engine.get_pending_admin_since(), 1_000);
    assert_eq!(
        w.engine.propose_new_admin(2_000, admin, contract(61)),
        Err(Error::AdminTransferPending)
    );
    assert_eq!(w.engine.accept_admin(1_000_000, contract(61)), Err(Error::Unauthorized));
    assert_eq!(
        w.engine.accept_admin(1_000 + 48 * 60 * 60 - 1, next),
        Err(Error::AdminTimelockNotExpired)
    );
    w.engine.accept_admin(1_000 + 48 * 60 * 60, next).unwrap();
    assert_eq!(w.engine.get_admin(), Ok(next));
    assert_eq!(w.engine.get_pending_admin_since(), 0);
    assert_eq!(w.engine.emergency_pause(admin), Err(Error::Unauthorized));
}

// ── Upgrades ──────────────────────────────────────────────────────────────────

#[test]
fn upgrades_migrate_and_only_go_up() {
    let (mut w, user) = funded_world();
    let admin = w.admin;
    assert_eq!(w.engine.get_version(), 1);
    assert_eq!(w.engine.upgrade(user, [1; 32], 2), Err(Error::Unauthorized));
    assert_eq!(w.engine.upgrade(admin, [1; 32], 1), Err(Error::InvalidVersion));
    assert_eq!(w.engine.upgrade(admin, [1; 32], 4), Err(Error::InvalidVersion));
    w.engine.max_products_per_pool = None;
    w.engine.upgrade(admin, [1; 32], 3).unwrap();
    w.settle();
    assert_eq!(w.engine.max_products_per_pool, Some(100));
    assert_eq!(w.engine.get_version(), 3);
    assert!(w.engine.outbox.contains(&Effect::ReplaceCode([1; 32])));
    assert_eq!(
        w.events.last(),
        Some(&Event::ContractUpgraded(ContractUpgraded { old_version: 1, new_version: 3 }))
    );
    w.engine.version = Some(0);
    assert_eq!(w.engine.upgrade(admin, [1; 32], 2), Err(Error::InvalidVersion));
}

#[test]
fn a_refused_request_changes_nothing() {
    let (mut w, user) = funded_world();
    let sent = w.engine.outbox.len();
    assert_eq!(w.engine.set_claims_processor(user, user), Err(Error::Unauthorized));
    assert_eq!(w.engine.set_max_products_per_pool(user, 7), Err(Error::Unauthorized));
    assert_eq!(w.engine.pause_product(user, 1), Err(Error::Unauthorized));
    assert_eq!(w.engine.deprecate_product(user, 1), Err(Error::Unauthorized));
    assert_eq!(w.engine.propose_new_admin(0, user, user), Err(Error::Unauthorized));
    assert_eq!(w.engine.outbox.len(), sent);
    assert_eq!(w.engine.claims_processor, None);
    assert_eq!(w.engine.pending_admin, None);
}
