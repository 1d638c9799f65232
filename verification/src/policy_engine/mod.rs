//! Products and policies.
//!
//! The administrator defines products; users buy policies against them and
//! pay their premium into the engine; the claims processor pays a policy out or
//! lets it expire. Each method is one request, atomic: it is refused with an
//! error and changes nothing, or it takes effect and leaves in the outbox what
//! the ledger has to do for it.

pub mod catalog;
pub mod laws;
pub mod state;
pub mod terms;
pub mod types;

use crate::arith::{quotient, saturating_add, saturating_sub};
use crate::common::{is_address, is_contract, or_default, timelock_expired};
use crate::outcome::{after, answer};
use crate::policy_engine::state::{
    CURRENT_STORAGE_VERSION, DEFAULT_EXPIRY_WARNING_WINDOW, DEFAULT_MAX_PRODUCTS_PER_POOL,
    EngineState, MAX_BATCH_BUY, MAX_COVERAGE, MAX_DURATION_DAYS, MAX_EXPIRY_SCAN,
    MAX_TRIGGER_THRESHOLD,
};
use crate::policy_engine::types::{
    AdminUpdated, BatchBuyItem, ClaimsProcessorUpdated, ContractUpgraded, CreateProductParams,
    Effect, Error, Event, ExpiryState, ExpiryWarningWindowUpdated, Initialized, InsuranceProduct,
    Policy, PolicyCancelled, PolicyExpired, PolicyExpiringSoon, PolicyExpiryInfo, PolicyStatus,
    PolicyTransferred, ProductCreated, ProductPaused, ProductStats, ProductStatus,
};
use crate::table::{ListTable, Table, index_of, list_at, remove_value};
use crate::text::{Addr, Sym};
use vstd::prelude::*;

verus! {

/// The policy engine.
pub struct PolicyEngine {
    pub initialized: bool,
    pub admin: Option<Addr>,
    pub usdc_token: Option<Addr>,
    pub oracle_address: Option<Addr>,
    pub claims_processor: Option<Addr>,
    pub products: Table<u128, InsuranceProduct>,
    pub policies: Table<u128, Policy>,
    /// The active policies of each holder.
    pub user_policies: ListTable<Addr, u128>,
    pub active_products: Vec<u128>,
    pub next_product_id: Option<u128>,
    pub next_policy_id: Option<u128>,
    pub paused: bool,
    /// The product that holds a (category, oracle key) pair.
    pub product_keys: Table<(Sym, Sym), u128>,
    /// The product that bears a name.
    pub product_names: Table<Sym, u128>,
    pub pending_admin: Option<Addr>,
    pub pending_admin_since: Option<u64>,
    pub max_products_per_pool: Option<u32>,
    /// How many products of a category are not deprecated.
    pub pool_product_count: Table<Sym, u32>,
    pub version: Option<u32>,
    pub expiry_warning_window: Option<u64>,
    /// The policies that a warning was emitted for.
    pub expiry_warned: Table<u128, bool>,
    /// What the ledger has to do for the calls made so far.
    pub outbox: Vec<Effect>,
}

impl View for PolicyEngine {
    type V = EngineState;

    open spec fn view(&self) -> EngineState {
        EngineState {
            initialized: self.initialized,
            admin: self.admin,
            usdc_token: self.usdc_token,
            oracle_address: self.oracle_address,
            claims_processor: self.claims_processor,
            products: self.products@,
            policies: self.policies@,
            user_policies: self.user_policies@,
            active_products: self.active_products@,
            next_product_id: self.next_product_id,
            next_policy_id: self.next_policy_id,
            paused: self.paused,
            product_keys: self.product_keys@,
            product_names: self.product_names@,
            pending_admin: self.pending_admin,
            pending_admin_since: self.pending_admin_since,
            max_products_per_pool: self.max_products_per_pool,
            pool_product_count: self.pool_product_count@,
            version: self.version,
            expiry_warning_window: self.expiry_warning_window,
            expiry_warned: self.expiry_warned@,
            outbox: self.outbox@,
        }
    }
}

/// A token transfer out of the engine that may fail.
#[derive(Clone, Copy, Debug, PartialEq, Eq)]
pub struct Payout {
    pub token: Addr,
    pub to: Addr,
    pub amount: i128,
}

/// The terms of a purchase that the engine accepts.
struct Quote {
    product: InsuranceProduct,
    token: Addr,
    premium: i128,
    end_time: u64,
}

impl PolicyEngine {
    /// An engine that nothing was stored in.
    pub fn new() -> (r: PolicyEngine)
        ensures
            r@ == EngineState::fresh(),
    {
        let r = PolicyEngine {
            initialized: false,
            admin: None,
            usdc_token: None,
            oracle_address: None,
            claims_processor: None,
            products: Table::new(),
            policies: Table::new(),
            user_policies: ListTable::new(),
            active_products: Vec::new(),
            next_product_id: None,
            next_policy_id: None,
            paused: false,
            product_keys: Table::new(),
            product_names: Table::new(),
            pending_admin: None,
            pending_admin_since: None,
            max_products_per_pool: None,
            pool_product_count: Table::new(),
            version: None,
            expiry_warning_window: None,
            expiry_warned: Table::new(),
            outbox: Vec::new(),
        };
        assert(r@ =~= EngineState::fresh());
        r
    }

    fn send(&mut self, e: Effect)
        ensures
            final(self)@ == old(self)@.send(e),
    {
        self.outbox.push(e);
        assert(self@ =~= old(self)@.send(e));
    }

    fn emit(&mut self, e: Event)
        ensures
            final(self)@ == old(self)@.emit(e),
    {
        self.send(Effect::Emit(e));
    }

    fn demand(&mut self, who: Addr)
        ensures
            final(self)@ == old(self)@.demand(who),
    {
        self.send(Effect::RequireAuth(who));
    }

    /// Whether `caller` is the stored administrator. Whether the caller
    /// authorised the call is the ledger's to say.
    pub fn require_admin(&self, caller: &Addr) -> (r: Result<(), Error>)
        ensures
            match self@.admin_error(*caller) {
                Some(e) => r == Err::<(), Error>(e),
                None => r is Ok,
            },
    {
        match self.admin {
            None => Err(Error::NotInitialized),
            Some(admin) => if caller.same(&admin) {
                Ok(())
            } else {
                Err(Error::Unauthorized)
            },
        }
    }

    fn require_claims_processor(&self, caller: &Addr) -> (r: Result<(), Error>)
        ensures
            match self@.processor_error(*caller) {
                Some(e) => r == Err::<(), Error>(e),
                None => r is Ok,
            },
    {
        match self.claims_processor {
            None => Err(Error::ClaimsProcessorNotSet),
            Some(cp) => if caller.same(&cp) {
                Ok(())
            } else {
                Err(Error::Unauthorized)
            },
        }
    }

    /// Whether a symbol can name an oracle measurement.
    fn oracle_key_ok(key: &Sym) -> (r: bool)
        ensures
            r == state::is_oracle_key(key@),
    {
        let n: usize = key.len();
        if n < 3 {
            return false;
        }
        if key.byte(0) == 95 || key.byte(n - 1) == 95 {
            return false;
        }
        let mut has_alpha = false;
        let mut prev_underscore = false;
        let mut i: usize = 0;
        while i < n
            invariant
                i <= n == key@.len(),
                3 <= n <= 32,
                has_alpha <==> exists|k: int| 0 <= k < i && state::is_letter(#[trigger] key@[k]),
                prev_underscore <==> (i > 0 && key@[i - 1] == 95),
                forall|k: int|
                    0 <= k < i ==> state::is_letter(#[trigger] key@[k]) || state::is_digit(key@[k])
                        || key@[k] == 95,
                forall|k: int, j: int|
                    0 <= k < i && j == k + 1 && j < i ==> !(#[trigger] key@[k] == 95
                        && #[trigger] key@[j] == 95),
            decreases n - i,
        {
            let b: u8 = key.byte(i);
            if b == 95 {
                if prev_underscore {
                    assert(key@[i - 1] == 95 && key@[i as int] == 95);
                    return false;
                }
                prev_underscore = true;
            } else {
                prev_underscore = false;
                if (b >= 97 && b <= 122) || (b >= 65 && b <= 90) {
                    has_alpha = true;
                    assert(state::is_letter(key@[i as int]));
                } else if !(b >= 48 && b <= 57) {
                    assert(!state::is_letter(key@[i as int]));
                    return false;
                }
            }
            i += 1;
        }
        has_alpha
    }

    /// Whether products may be filed under a category.
    fn category_ok(category: &Sym) -> (r: bool)
        ensures
            r == state::is_category_text(category@),
    {
        is_text(category, &[99, 114, 111, 112])
            || is_text(category, &[102, 108, 105, 103, 104, 116])
            || is_text(category, &[100, 105, 115, 97, 115, 116, 101, 114])
            || is_text(category, &[104, 101, 97, 108, 116, 104])
            || is_text(category, &[100, 101, 102, 105])
    }

    /// Open the engine for business, once. `token_answers` says whether the
    /// token contract answered a balance query.
    pub fn initialize(
        &mut self,
        admin: Addr,
        usdc_token: Addr,
        oracle_address: Addr,
        token_answers: bool,
    ) -> (r: Result<(), Error>)
        ensures
            r == answer(
                old(self)@.initialize(admin, usdc_token, oracle_address, token_answers),
            ),
            final(self)@ == after(
                old(self)@,
                old(self)@.initialize(admin, usdc_token, oracle_address, token_answers),
            ),
    {
        if self.initialized {
            return Err(Error::AlreadyInitialized);
        }
        if !is_address(&admin) || !is_contract(&usdc_token) || !is_contract(&oracle_address) {
            return Err(Error::InvalidAddress);
        }
        if !token_answers {
            return Err(Error::InvalidToken);
        }
        self.initialized = true;
        self.admin = Some(admin);
        self.usdc_token = Some(usdc_token);
        self.oracle_address = Some(oracle_address);
        self.next_product_id = Some(1);
        self.next_policy_id = Some(1);
        self.active_products = Vec::new();
        self.max_products_per_pool = Some(DEFAULT_MAX_PRODUCTS_PER_POOL);
        self.pending_admin = None;
        self.demand(admin);
        self.emit(Event::Initialized(Initialized { admin, usdc_token, oracle_address }));
        assert(self@ =~= after(
            old(self)@,
            old(self)@.initialize(admin, usdc_token, oracle_address, token_answers),
        ));
        Ok(())
    }

    /// Name the contract that settles claims.
    pub fn set_claims_processor(&mut self, admin: Addr, claims_processor: Addr) -> (r: Result<
        (),
        Error,
    >)
        ensures
            r == answer(old(self)@.set_claims_processor(admin, claims_processor)),
            final(self)@ == after(
                old(self)@,
                old(self)@.set_claims_processor(admin, claims_processor),
            ),
    {
        match self.require_admin(&admin) {
            Err(e) => {
                return Err(e);
            },
            Ok(()) => {},
        }
        self.claims_processor = Some(claims_processor);
        self.demand(admin);
        self.emit(Event::ClaimsProcessorUpdated(ClaimsProcessorUpdated { claims_processor }));
        assert(self@ =~= after(
            old(self)@,
            old(self)@.set_claims_processor(admin, claims_processor),
        ));
        Ok(())
    }

    fn check_params(params: &CreateProductParams) -> (r: Result<(), Error>)
        ensures
            match EngineState::params_error(*params) {
                Some(e) => r == Err::<(), Error>(e),
                None => r is Ok,
            },
    {
        if params.premium_rate_bps == 0 || params.premium_rate_bps > 10_000 {
            return Err(Error::InvalidPremiumRate);
        }
        if params.trigger_threshold <= 0 || params.trigger_threshold > MAX_TRIGGER_THRESHOLD {
            return Err(Error::InvalidTriggerThreshold);
        }
        if params.coverage_min <= 0 || params.coverage_min >= params.coverage_max {
            return Err(Error::InvalidCoverageRange);
        }
        if params.max_duration_days == 0 || params.max_duration_days > MAX_DURATION_DAYS {
            return Err(Error::InvalidDurationRange);
        }
        if !Self::oracle_key_ok(&params.oracle_key) {
            return Err(Error::InvalidOracleKey);
        }
        if !Self::category_ok(&params.category) {
            return Err(Error::InvalidCategory);
        }
        Ok(())
    }

    /// Define a product and return its number. The premium rate is 1 to 10000
    /// basis points, the coverage range positive and not empty, and neither the
    /// name nor the (category, oracle key) pair belongs to another product.
    pub fn create_product(&mut self, now: u64, admin: Addr, params: CreateProductParams) -> (r:
        Result<u128, Error>)
        requires
            old(self)@.product_counter() < u128::MAX,
        ensures
            r == answer(old(self)@.create_product(now, admin, params)),
            final(self)@ == after(old(self)@, old(self)@.create_product(now, admin, params)),
    {
        match self.require_admin(&admin) {
            Err(e) => {
                return Err(e);
            },
            Ok(()) => {},
        }
        match Self::check_params(&params) {
            Err(e) => {
                return Err(e);
            },
            Ok(()) => {},
        }
        let key = (params.category, params.oracle_key);
        if self.product_keys.contains(&key) {
            return Err(Error::DuplicateProductKey);
        }
        if self.product_names.contains(&params.name) {
            return Err(Error::DuplicateProductName);
        }
        let pool_count: u32 = self.get_pool_product_count(&params.category);
        if pool_count >= self.get_max_products_per_pool() {
            return Err(Error::TooManyProducts);
        }
        let id: u128 = self.next_product_id();
        let product = InsuranceProduct {
            id,
            name: params.name,
            category: params.category,
            oracle_key: params.oracle_key,
            trigger_type: params.trigger_type,
            oracle_data_type: params.oracle_data_type,
            trigger_threshold: params.trigger_threshold,
            trigger_comparison: params.trigger_comparison,
            coverage_min: params.coverage_min,
            coverage_max: params.coverage_max,
            premium_rate_bps: params.premium_rate_bps,
            max_duration_days: params.max_duration_days,
            status: ProductStatus::Active,
            created_at: now,
        };
        self.products.insert(id, product);
        self.product_keys.insert(key, id);
        self.product_names.insert(params.name, id);
        self.active_products.push(id);
        self.pool_product_count.insert(params.category, pool_count + 1);
        self.demand(admin);
        self.emit(
            Event::ProductCreated(
                ProductCreated {
                    product_id: id,
                    name: params.name,
                    category: params.category,
                    premium_rate_bps: params.premium_rate_bps,
                },
            ),
        );
        assert(self@ =~= after(old(self)@, old(self)@.create_product(now, admin, params)));
        Ok(id)
    }

    fn next_product_id(&mut self) -> (id: u128)
        requires
            old(self)@.product_counter() < u128::MAX,
        ensures
            id == old(self)@.product_counter(),
            final(self)@ == (EngineState { next_product_id: Some((id + 1) as u128), ..old(self)@ }),
    {
        let id: u128 = match self.next_product_id {
            Some(id) => id,
            None => 1,
        };
        self.next_product_id = Some(id + 1);
        assert(self@ =~= (EngineState { next_product_id: Some((id + 1) as u128), ..old(self)@ }));
        id
    }

    fn next_policy_id(&mut self) -> (id: u128)
        requires
            old(self)@.policy_counter() < u128::MAX,
        ensures
            id == old(self)@.policy_counter(),
            final(self)@ == (EngineState { next_policy_id: Some((id + 1) as u128), ..old(self)@ }),
    {
        let id: u128 = match self.next_policy_id {
            Some(id) => id,
            None => 1,
        };
        self.next_policy_id = Some(id + 1);
        assert(self@ =~= (EngineState { next_policy_id: Some((id + 1) as u128), ..old(self)@ }));
        id
    }

    /// The configured maximum number of products per category.
    pub fn get_max_products_per_pool(&self) -> (r: u32)
        ensures
            r == self@.max_products(),
    {
        match self.max_products_per_pool {
            Some(n) => n,
            None => DEFAULT_MAX_PRODUCTS_PER_POOL,
        }
    }

    /// How many products of a category are not deprecated.
    pub fn get_pool_product_count(&self, category: &Sym) -> (r: u32)
        ensures
            r == self@.pool_count(*category),
    {
        match self.pool_product_count.get(category) {
            Some(n) => *n,
            None => 0,
        }
    }

    /// Suspend sales of a product that is not retired. Its policies are not
    /// affected.
    pub fn pause_product(&mut self, admin: Addr, product_id: u128) -> (r: Result<(), Error>)
        ensures
            r == answer(old(self)@.pause_product(admin, product_id)),
            final(self)@ == after(old(self)@, old(self)@.pause_product(admin, product_id)),
    {
        match self.require_admin(&admin) {
            Err(e) => {
                return Err(e);
            },
            Ok(()) => {},
        }
        let mut product = match self.load_product(product_id) {
            Ok(p) => p,
            Err(e) => {
                return Err(e);
            },
        };
        if product.status == ProductStatus::Deprecated {
            return Err(Error::ProductNotActive);
        }
        product.status = ProductStatus::Paused;
        self.products.insert(product_id, product);
        remove_value(&mut self.active_products, &product_id);
        self.demand(admin);
        self.emit(Event::ProductPaused(ProductPaused { product_id }));
        assert(self@ =~= after(old(self)@, old(self)@.pause_product(admin, product_id)));
        Ok(())
    }

    /// Retire a product for good. Its (category, oracle key) pair can be used
    /// again.
    pub fn deprecate_product(&mut self, admin: Addr, product_id: u128) -> (r: Result<(), Error>)
        ensures
            r == answer(old(self)@.deprecate_product(admin, product_id)),
            final(self)@ == after(old(self)@, old(self)@.deprecate_product(admin, product_id)),
    {
        match self.require_admin(&admin) {
            Err(e) => {
                return Err(e);
            },
            Ok(()) => {},
        }
        let mut product = match self.load_product(product_id) {
            Ok(p) => p,
            Err(e) => {
                return Err(e);
            },
        };
        if product.status == ProductStatus::Deprecated {
            return Err(Error::ProductNotActive);
        }
        product.status = ProductStatus::Deprecated;
        self.products.insert(product_id, product);
        remove_value(&mut self.active_products, &product_id);
        let count: u32 = self.get_pool_product_count(&product.category);
        if count > 0 {
            self.pool_product_count.insert(product.category, count - 1);
        }
        let _ = self.product_keys.remove(&(product.category, product.oracle_key));
        self.demand(admin);
        assert(self@ =~= after(old(self)@, old(self)@.deprecate_product(admin, product_id)));
        Ok(())
    }

    fn load_product(&self, id: u128) -> (r: Result<InsuranceProduct, Error>)
        ensures
            match r {
                Ok(p) => self@.products.contains_key(id) && p == self@.products[id],
                Err(e) => !self@.products.contains_key(id) && e == Error::ProductNotFound,
            },
    {
        match self.products.get(&id) {
            Some(p) => Ok(*p),
            None => Err(Error::ProductNotFound),
        }
    }

    fn load_policy(&self, id: u128) -> (r: Result<Policy, Error>)
        ensures
            match r {
                Ok(p) => self@.policies.contains_key(id) && p == self@.policies[id],
                Err(e) => !self@.policies.contains_key(id) && e == Error::PolicyNotFound,
            },
    {
        match self.policies.get(&id) {
            Some(p) => Ok(*p),
            None => Err(Error::PolicyNotFound),
        }
    }

    /// The terms of a purchase, or why it is refused.
    fn quote(&self, now: u64, product_id: u128, coverage_amount: i128, duration_days: u32) -> (r:
        Result<Quote, Error>)
        ensures
            match self@.buy_error(now, product_id, coverage_amount, duration_days) {
                Some(e) => r == Err::<Quote, Error>(e),
                None => r matches Ok(q) && q.product == self@.products[product_id] && Some(q.token)
                    == self@.usdc_token && q.premium == state::premium_of(
                    coverage_amount as int,
                    q.product.premium_rate_bps as int,
                    duration_days as int,
                ) && q.end_time == now + duration_days * 86_400,
            },
    {
        let product = match self.load_product(product_id) {
            Ok(p) => p,
            Err(e) => {
                return Err(e);
            },
        };
        if product.status != ProductStatus::Active {
            return Err(Error::ProductNotActive);
        }
        if coverage_amount < product.coverage_min || coverage_amount > product.coverage_max {
            return Err(Error::CoverageOutOfRange);
        }
        if duration_days == 0 || duration_days > product.max_duration_days {
            return Err(Error::DurationTooLong);
        }
        if coverage_amount > MAX_COVERAGE {
            return Err(Error::CoverageOutOfRange);
        }
        let yearly: i128 = match coverage_amount.checked_mul(product.premium_rate_bps as i128) {
            Some(v) => v,
            None => {
                return Err(Error::CoverageOutOfRange);
            },
        };
        let daily: i128 = match yearly.checked_mul(duration_days as i128) {
            Some(v) => v,
            None => {
                return Err(Error::CoverageOutOfRange);
            },
        };
        let premium: i128 = quotient(quotient(daily, 365), 10_000);
        let token = match self.usdc_token {
            Some(t) => t,
            None => {
                return Err(Error::NotInitialized);
            },
        };
        let end_time: u64 = match now.checked_add(duration_days as u64 * 86_400) {
            Some(t) => t,
            None => {
                return Err(Error::CoverageOutOfRange);
            },
        };
        Ok(Quote { product, token, premium, end_time })
    }

    /// Buy a policy for a buyer whose authorisation is already demanded.
    fn buy_policy_inner(
        &mut self,
        now: u64,
        buyer: Addr,
        product_id: u128,
        coverage_amount: i128,
        duration_days: u32,
        oracle_key: Sym,
    ) -> (r: Result<u128, Error>)
        requires
            old(self)@.policy_counter() < u128::MAX,
        ensures
            r == answer(
                old(self)@.buy_policy_inner(
                    now,
                    buyer,
                    product_id,
                    coverage_amount,
                    duration_days,
                    oracle_key,
                ),
            ),
            final(self)@ == after(
                old(self)@,
                old(self)@.buy_policy_inner(
                    now,
                    buyer,
                    product_id,
                    coverage_amount,
                    duration_days,
                    oracle_key,
                ),
            ),
    {
        let quote = match self.quote(now, product_id, coverage_amount, duration_days) {
            Ok(q) => q,
            Err(e) => {
                return Err(e);
            },
        };
        let premium: i128 = quote.premium;
        let policy_id: u128 = self.next_policy_id();
        let policy = Policy {
            id: policy_id,
            product_id,
            policyholder: buyer,
            coverage_amount,
            premium_paid: premium,
            oracle_key,
            oracle_data_type: quote.product.oracle_data_type,
            trigger_threshold: quote.product.trigger_threshold,
            trigger_comparison: quote.product.trigger_comparison,
            start_time: now,
            end_time: quote.end_time,
            status: PolicyStatus::Active,
            created_at: now,
        };
        self.policies.insert(policy_id, policy);
        self.user_policies.push(buyer, policy_id);
        self.send(Effect::Collect { token: quote.token, from: buyer, amount: premium });
        self.emit(Event::PolicyBought { buyer, policy_id, product_id, coverage_amount, premium });
        assert(self@ =~= after(
            old(self)@,
            old(self)@.buy_policy_inner(
                now,
                buyer,
                product_id,
                coverage_amount,
                duration_days,
                oracle_key,
            ),
        ));
        Ok(policy_id)
    }

    /// Buy a policy: the premium, prorated over the year, is collected from the
    /// buyer, and `oracle_key` is the measurement that the policy watches.
    pub fn buy_policy(
        &mut self,
        now: u64,
        buyer: Addr,
        product_id: u128,
        coverage_amount: i128,
        duration_days: u32,
        oracle_key: Sym,
    ) -> (r: Result<u128, Error>)
        requires
            old(self)@.policy_counter() < u128::MAX,
        ensures
            r == answer(
                old(self)@.buy_policy(
                    now,
                    buyer,
                    product_id,
                    coverage_amount,
                    duration_days,
                    oracle_key,
                ),
            ),
            final(self)@ == after(
                old(self)@,
                old(self)@.buy_policy(
                    now,
                    buyer,
                    product_id,
                    coverage_amount,
                    duration_days,
                    oracle_key,
                ),
            ),
    {
        if self.paused {
            return Err(Error::Unauthorized);
        }
        match self.quote(now, product_id, coverage_amount, duration_days) {
            Ok(_) => {},
            Err(e) => {
                return Err(e);
            },
        }
        self.demand(buyer);
        self.buy_policy_inner(now, buyer, product_id, coverage_amount, duration_days, oracle_key)
    }

    /// Buy several policies at once: all of them, or none where one is refused.
    pub fn batch_buy_policy(&mut self, now: u64, buyer: Addr, items: &Vec<BatchBuyItem>) -> (r:
        Result<Vec<u128>, Error>)
        requires
            old(self)@.policy_counter() + items@.len() <= u128::MAX,
        ensures
            match old(self)@.batch_buy_policy(now, buyer, items@) {
                Ok((s, ids)) => r matches Ok(v) && v@ == ids && final(self)@ == s,
                Err(e) => r == Err::<Vec<u128>, Error>(e) && final(self)@ == old(self)@,
            },
    {
        if self.paused {
            return Err(Error::Unauthorized);
        }
        if items.len() == 0 {
            return Err(Error::EmptyBatch);
        }
        if items.len() > MAX_BATCH_BUY {
            return Err(Error::BatchTooLarge);
        }
        let ghost start = self@.demand(buyer);
        let mut i: usize = 0;
        while i < items.len()
            invariant
                i <= items@.len(),
                self@ == old(self)@,
                start == self@.demand(buyer),
                forall|j: int|
                    0 <= j < i ==> start.buy_error(
                        now,
                        (#[trigger] items@[j]).product_id,
                        items@[j].coverage_amount,
                        items@[j].duration_days,
                    ) is None,
                !self@.paused,
                0 < items@.len() <= MAX_BATCH_BUY,
                old(self)@.policy_counter() + items@.len() <= u128::MAX,
            decreases items.len() - i,
        {
            let item = items[i];
            match self.quote(now, item.product_id, item.coverage_amount, item.duration_days) {
                Ok(_) => {},
                Err(e) => {
                    proof {
                        start.lemma_buy_items_fail(now, buyer, items@, i as nat, items@.len());
                    }
                    return Err(e);
                },
            }
            i += 1;
        }
        self.demand(buyer);
        let mut ids: Vec<u128> = Vec::new();
        let mut i: usize = 0;
        while i < items.len()
            invariant
                i <= items@.len(),
                start.policy_counter() == old(self)@.policy_counter(),
                old(self)@.policy_counter() + items@.len() <= u128::MAX,
                start.buy_items(now, buyer, items@, i as nat) == Ok::<_, Error>((self@, ids@)),
                forall|j: int|
                    0 <= j < items@.len() ==> start.buy_error(
                        now,
                        (#[trigger] items@[j]).product_id,
                        items@[j].coverage_amount,
                        items@[j].duration_days,
                    ) is None,
            decreases items.len() - i,
        {
            proof {
                start.lemma_buy_items_ok(now, buyer, items@, i as nat);
                start.lemma_buy_items_ok(now, buyer, items@, (i + 1) as nat);
            }
            let item = items[i];
            match self.buy_policy_inner(
                now,
                buyer,
                item.product_id,
                item.coverage_amount,
                item.duration_days,
                item.oracle_key,
            ) {
                Ok(id) => {
                    ids.push(id);
                },
                Err(_) => {},
            }
            i += 1;
        }
        Ok(ids)
    }

    fn remove_policy_from_user(&mut self, user: Addr, policy_id: u128)
        ensures
            final(self)@ == old(self)@.without_user_policy(user, policy_id),
    {
        let held = match self.user_policies.get(&user) {
            Some(v) => index_of(v, &policy_id).is_some(),
            None => false,
        };
        if held {
            let mut list = self.user_policies.take(&user);
            remove_value(&mut list, &policy_id);
            self.user_policies.insert(user, list);
        }
        assert(self@ =~= old(self)@.without_user_policy(user, policy_id));
    }

    fn close_policy(&mut self, policy: Policy, policy_id: u128, status: PolicyStatus)
        requires
            old(self)@.policies.contains_key(policy_id),
            old(self)@.policies[policy_id] == policy,
        ensures
            final(self)@ == old(self)@.close_policy(policy_id, status),
    {
        let mut closed = policy;
        closed.status = status;
        self.policies.insert(policy_id, closed);
        assert(self@ =~= (EngineState {
            policies: old(self)@.policies.insert(policy_id, Policy { status, ..policy }),
            ..old(self)@
        }));
        self.remove_policy_from_user(policy.policyholder, policy_id);
    }

    /// Cancel an active policy: its holder gets back the premium for the time
    /// that is left.
    pub fn cancel_policy(&mut self, now: u64, policyholder: Addr, policy_id: u128) -> (r: Result<
        i128,
        Error,
    >)
        ensures
            r == answer(old(self)@.cancel_policy(now, policyholder, policy_id)),
            final(self)@ == after(
                old(self)@,
                old(self)@.cancel_policy(now, policyholder, policy_id),
            ),
    {
        let policy = match self.load_policy(policy_id) {
            Ok(p) => p,
            Err(e) => {
                return Err(e);
            },
        };
        if !policy.policyholder.same(&policyholder) {
            return Err(Error::Unauthorized);
        }
        if policy.status != PolicyStatus::Active {
            return Err(Error::PolicyNotActive);
        }
        let elapsed: u64 = now.saturating_sub(policy.start_time);
        let total: u64 = policy.end_time.saturating_sub(policy.start_time);
        let refund: i128 = if total == 0 {
            policy.premium_paid
        } else {
            let capped: u64 = if elapsed <= total {
                elapsed
            } else {
                total
            };
            match policy.premium_paid.checked_mul(capped as i128) {
                Some(v) => {
                    let earned: i128 = quotient(v, total as i128);
                    saturating_sub(policy.premium_paid, earned)
                },
                None => {
                    return Err(Error::Overflow);
                },
            }
        };
        let token = match self.usdc_token {
            Some(t) => t,
            None => {
                return Err(Error::NotInitialized);
            },
        };
        assert(refund == state::refund_of(policy, now));
        self.demand(policyholder);
        self.close_policy(policy, policy_id, PolicyStatus::Cancelled);
        if refund > 0 {
            self.send(Effect::Pay { token, to: policyholder, amount: refund });
        }
        self.emit(
            Event::PolicyCancelled(
                PolicyCancelled { policy_id, policyholder, refund_amount: refund },
            ),
        );
        Ok(refund)
    }

    /// Hand an active policy to another holder. Both have to authorise it.
    pub fn transfer_policy(&mut self, from: Addr, to: Addr, policy_id: u128) -> (r: Result<
        (),
        Error,
    >)
        ensures
            r == answer(old(self)@.transfer_policy(from, to, policy_id)),
            final(self)@ == after(old(self)@, old(self)@.transfer_policy(from, to, policy_id)),
    {
        if self.paused {
            return Err(Error::Unauthorized);
        }
        if !is_address(&to) {
            return Err(Error::InvalidAddress);
        }
        let mut policy = match self.load_policy(policy_id) {
            Ok(p) => p,
            Err(e) => {
                return Err(e);
            },
        };
        if !policy.policyholder.same(&from) {
            return Err(Error::Unauthorized);
        }
        if policy.status != PolicyStatus::Active {
            return Err(Error::PolicyNotActive);
        }
        self.demand(from);
        self.demand(to);
        if from.same(&to) {
            return Ok(());
        }
        let ghost asked = self@;
        policy.policyholder = to;
        self.policies.insert(policy_id, policy);
        assert(self@ =~= (EngineState {
            policies: asked.policies.insert(policy_id, policy),
            ..asked
        }));
        self.remove_policy_from_user(from, policy_id);
        let ghost moved = self@;
        self.user_policies.push(to, policy_id);
        assert(self@ =~= (EngineState {
            user_policies: moved.user_policies.insert(
                to,
                list_at(moved.user_policies, to).push(policy_id),
            ),
            ..moved
        }));
        self.emit(Event::PolicyTransferred(PolicyTransferred { policy_id, from, to }));
        Ok(())
    }

    fn check_settleable(status: PolicyStatus) -> (r: Result<(), Error>)
        ensures
            match state::settle_error(status) {
                Some(e) => r == Err::<(), Error>(e),
                None => r is Ok,
            },
    {
        match status {
            PolicyStatus::Active => Ok(()),
            PolicyStatus::Claimed => Err(Error::AlreadyClaimed),
            PolicyStatus::Expired => Err(Error::AlreadyExpired),
            PolicyStatus::Cancelled => Err(Error::PolicyNotActive),
        }
    }

    /// The transfer that has to succeed before a policy can be paid out, or why
    /// the policy cannot be paid out at all.
    pub fn claim_payout(&self, caller: Addr, policy_id: u128) -> (r: Result<Payout, Error>)
        ensures
            match self@.pay_claim_error(caller, policy_id) {
                Some(e) => r == Err::<Payout, Error>(e),
                None => r == Ok::<Payout, Error>(
                    Payout {
                        token: self@.usdc_token->0,
                        to: self@.policies[policy_id].policyholder,
                        amount: self@.policies[policy_id].coverage_amount,
                    },
                ),
            },
    {
        match self.require_claims_processor(&caller) {
            Err(e) => {
                return Err(e);
            },
            Ok(()) => {},
        }
        let policy = match self.load_policy(policy_id) {
            Ok(p) => p,
            Err(e) => {
                return Err(e);
            },
        };
        match Self::check_settleable(policy.status) {
            Err(e) => {
                return Err(e);
            },
            Ok(()) => {},
        }
        match self.usdc_token {
            Some(token) => Ok(
                Payout { token, to: policy.policyholder, amount: policy.coverage_amount },
            ),
            None => Err(Error::NotInitialized),
        }
    }

    /// Settle a policy as claimed. Only the claims processor may ask for it.
    /// `transferred` says whether the transfer of `claim_payout` went through;
    /// where it did not, the pool cannot pay.
    pub fn pay_claim(&mut self, caller: Addr, policy_id: u128, transferred: bool) -> (r: Result<
        (),
        Error,
    >)
        ensures
            r == answer(old(self)@.pay_claim(caller, policy_id, transferred)),
            final(self)@ == after(old(self)@, old(self)@.pay_claim(caller, policy_id, transferred)),
    {
        match self.claim_payout(caller, policy_id) {
            Err(e) => {
                return Err(e);
            },
            Ok(_) => {},
        }
        if !transferred {
            return Err(Error::InsufficientPool);
        }
        let policy = match self.load_policy(policy_id) {
            Ok(p) => p,
            Err(e) => {
                return Err(e);
            },
        };
        self.demand(caller);
        self.close_policy(policy, policy_id, PolicyStatus::Claimed);
        self.emit(
            Event::ClaimPaid {
                policy_id,
                policyholder: policy.policyholder,
                coverage_amount: policy.coverage_amount,
            },
        );
        Ok(())
    }

    /// Settle a policy as expired; the premium stays with the engine. Only the
    /// claims processor may ask for it.
    pub fn expire_policy(&mut self, caller: Addr, policy_id: u128) -> (r: Result<(), Error>)
        ensures
            r == answer(old(self)@.expire_policy(caller, policy_id)),
            final(self)@ == after(old(self)@, old(self)@.expire_policy(caller, policy_id)),
    {
        match self.require_claims_processor(&caller) {
            Err(e) => {
                return Err(e);
            },
            Ok(()) => {},
        }
        let policy = match self.load_policy(policy_id) {
            Ok(p) => p,
            Err(e) => {
                return Err(e);
            },
        };
        match Self::check_settleable(policy.status) {
            Err(e) => {
                return Err(e);
            },
            Ok(()) => {},
        }
        self.demand(caller);
        self.close_policy(policy, policy_id, PolicyStatus::Expired);
        self.emit(Event::PolicyExpired(PolicyExpired { policy_id }));
        Ok(())
    }

    /// The product with the given number.
    pub fn get_product(&self, product_id: u128) -> (r: Result<InsuranceProduct, Error>)
        ensures
            match r {
                Ok(p) => self@.products.contains_key(product_id) && p == self@.products[product_id],
                Err(e) => !self@.products.contains_key(product_id) && e == Error::ProductNotFound,
            },
    {
        self.load_product(product_id)
    }

    /// The policy with the given number.
    pub fn get_policy(&self, policy_id: u128) -> (r: Result<Policy, Error>)
        ensures
            match r {
                Ok(p) => self@.policies.contains_key(policy_id) && p == self@.policies[policy_id],
                Err(e) => !self@.policies.contains_key(policy_id) && e == Error::PolicyNotFound,
            },
    {
        self.load_policy(policy_id)
    }

    /// Figures on all policies ever sold of a product; all zero where there is
    /// no such product.
    pub fn get_product_stats(&self, product_id: u128) -> (r: ProductStats)
        requires
            self@.policies_of(product_id, self@.policy_counter() as nat).len() <= u32::MAX,
        ensures
            r == self@.stats_of(product_id),
    {
        let mut stats = ProductStats {
            product_id,
            total_policies: 0,
            active_policies: 0,
            total_coverage: 0,
            total_premium_collected: 0,
        };
        if !self.products.contains(&product_id) {
            return stats;
        }
        let next_id: u128 = match self.next_policy_id {
            Some(id) => id,
            None => 1,
        };
        let mut pid: u128 = 1;
        while pid < next_id
            invariant
                1 <= pid,
                pid <= next_id || (pid == 1 && next_id == 0),
                next_id == self@.policy_counter(),
                self@.policies_of(product_id, next_id as nat).len() <= u32::MAX,
                stats.product_id == product_id,
                stats.total_policies == self@.policies_of(product_id, pid as nat).len(),
                stats.active_policies == state::active_among(
                    self@.policies_of(product_id, pid as nat),
                ),
                stats.active_policies <= stats.total_policies,
                stats.total_coverage == state::coverage_sum(
                    self@.policies_of(product_id, pid as nat),
                ),
                stats.total_premium_collected == state::premium_sum(
                    self@.policies_of(product_id, pid as nat),
                ),
            decreases next_id - pid,
        {
            proof {
                self@.lemma_policies_of_grow(product_id, (pid + 1) as nat, next_id as nat);
                let earlier = self@.policies_of(product_id, pid as nat);
                assert(earlier.push(self@.policies[pid]).drop_last() =~= earlier);
            }
            match self.policies.get(&pid) {
                Some(policy) => {
                    if policy.product_id == product_id {
                        stats.total_policies = stats.total_policies + 1;
                        if policy.status == PolicyStatus::Active {
                            stats.active_policies = stats.active_policies + 1;
                        }
                        stats.total_coverage = saturating_add(
                            stats.total_coverage,
                            policy.coverage_amount,
                        );
                        stats.total_premium_collected = saturating_add(
                            stats.total_premium_collected,
                            policy.premium_paid,
                        );
                    }
                },
                None => {},
            }
            pid = pid + 1;
        }
        stats
    }

    /// Up to `limit` of the policies of a holder, starting at position `offset`.
    pub fn get_user_policies(&self, user: Addr, offset: u32, limit: u32) -> (r: Vec<u128>)
        requires
            offset < list_at(self@.user_policies, user).len() ==> offset + limit <= u32::MAX,
        ensures
            r@ == self@.user_page(user, offset as int, limit as int),
    {
        let mut page: Vec<u128> = Vec::new();
        match self.user_policies.get(&user) {
            Some(all) => {
                if (offset as usize) < all.len() {
                    let stop: usize = (offset + limit) as usize;
                    let end: usize = if stop <= all.len() {
                        stop
                    } else {
                        all.len()
                    };
                    let mut i: usize = offset as usize;
                    while i < end
                        invariant
                            offset <= i <= end <= all@.len(),
                            page@ == all@.subrange(offset as int, i as int),
                        decreases end - i,
                    {
                        page.push(all[i]);
                        i += 1;
                        assert(page@ =~= all@.subrange(offset as int, i as int));
                    }
                }
            },
            None => {},
        }
        assert(page@ =~= self@.user_page(user, offset as int, limit as int));
        page
    }

    /// The products on sale.
    pub fn get_active_products(&self) -> (r: &Vec<u128>)
        ensures
            r@ == self@.active_products,
    {
        &self.active_products
    }

    /// The token that premiums and payouts are made in.
    pub fn get_usdc_token(&self) -> (r: Result<Addr, Error>)
        ensures
            r == match self@.usdc_token {
                Some(a) => Ok(a),
                None => Err(Error::NotInitialized),
            },
    {
        match self.usdc_token {
            Some(a) => Ok(a),
            None => Err(Error::NotInitialized),
        }
    }

    /// The administrator.
    pub fn get_admin(&self) -> (r: Result<Addr, Error>)
        ensures
            r == match self@.admin {
                Some(a) => Ok(a),
                None => Err(Error::NotInitialized),
            },
    {
        match self.admin {
            Some(a) => Ok(a),
            None => Err(Error::NotInitialized),
        }
    }

    /// When the pending admin transfer was proposed; 0 where none is pending.
    pub fn get_pending_admin_since(&self) -> (r: u64)
        ensures
            r == or_default(self@.pending_admin_since, 0),
    {
        match self.pending_admin_since {
            Some(t) => t,
            None => 0,
        }
    }

    /// The oracle verifier contract.
    pub fn get_oracle(&self) -> (r: Result<Addr, Error>)
        ensures
            r == match self@.oracle_address {
                Some(a) => Ok(a),
                None => Err(Error::NotInitialized),
            },
    {
        match self.oracle_address {
            Some(a) => Ok(a),
            None => Err(Error::NotInitialized),
        }
    }

    /// Whether the engine is in emergency pause.
    pub fn is_paused(&self) -> (r: bool)
        ensures
            r == self@.paused,
    {
        self.paused
    }

    /// The version of the storage layout; 1 before any migration.
    pub fn get_version(&self) -> (r: u32)
        ensures
            r == self@.stored_version(),
    {
        match self.version {
            Some(v) => v,
            None => 1,
        }
    }

    /// Halt the sale and the transfer of policies.
    pub fn emergency_pause(&mut self, admin: Addr) -> (r: Result<(), Error>)
        ensures
            r == answer(old(self)@.set_paused(admin, true)),
            final(self)@ == after(old(self)@, old(self)@.set_paused(admin, true)),
    {
        match self.require_admin(&admin) {
            Err(e) => {
                return Err(e);
            },
            Ok(()) => {},
        }
        self.paused = true;
        self.demand(admin);
        assert(self@ =~= after(old(self)@, old(self)@.set_paused(admin, true)));
        Ok(())
    }

    /// End the emergency pause.
    pub fn emergency_resume(&mut self, admin: Addr) -> (r: Result<(), Error>)
        ensures
            r == answer(old(self)@.set_paused(admin, false)),
            final(self)@ == after(old(self)@, old(self)@.set_paused(admin, false)),
    {
        match self.require_admin(&admin) {
            Err(e) => {
                return Err(e);
            },
            Ok(()) => {},
        }
        self.paused = false;
        self.demand(admin);
        assert(self@ =~= after(old(self)@, old(self)@.set_paused(admin, false)));
        Ok(())
    }

    /// Propose a new administrator. Refused while another proposal is pending,
    /// so that the timelock cannot be restarted.
    pub fn propose_new_admin(&mut self, now: u64, admin: Addr, new_admin: Addr) -> (r: Result<
        (),
        Error,
    >)
        ensures
            r == answer(old(self)@.propose_new_admin(now, admin, new_admin)),
            final(self)@ == after(old(self)@, old(self)@.propose_new_admin(now, admin, new_admin)),
    {
        match self.require_admin(&admin) {
            Err(e) => {
                return Err(e);
            },
            Ok(()) => {},
        }
        if self.pending_admin.is_some() {
            return Err(Error::AdminTransferPending);
        }
        self.pending_admin = Some(new_admin);
        self.pending_admin_since = Some(now);
        self.demand(admin);
        assert(self@ =~= after(old(self)@, old(self)@.propose_new_admin(now, admin, new_admin)));
        Ok(())
    }

    /// Take over as administrator, once the timelock of the proposal is over.
    pub fn accept_admin(&mut self, now: u64, admin: Addr) -> (r: Result<(), Error>)
        ensures
            r == answer(old(self)@.accept_admin(now, admin)),
            final(self)@ == after(old(self)@, old(self)@.accept_admin(now, admin)),
    {
        match self.pending_admin {
            Some(pending) => {
                if !pending.same(&admin) {
                    return Err(Error::Unauthorized);
                }
            },
            None => {
                return Err(Error::Unauthorized);
            },
        }
        if !timelock_expired(self.get_pending_admin_since(), now) {
            return Err(Error::AdminTimelockNotExpired);
        }
        self.admin = Some(admin);
        self.pending_admin = None;
        self.pending_admin_since = None;
        self.demand(admin);
        self.emit(Event::AdminUpdated(AdminUpdated { new_admin: admin }));
        assert(self@ =~= after(old(self)@, old(self)@.accept_admin(now, admin)));
        Ok(())
    }

    /// Set the maximum number of products per category.
    pub fn set_max_products_per_pool(&mut self, admin: Addr, max_products: u32) -> (r: Result<
        (),
        Error,
    >)
        ensures
            r == answer(old(self)@.set_max_products_per_pool(admin, max_products)),
            final(self)@ == after(
                old(self)@,
                old(self)@.set_max_products_per_pool(admin, max_products),
            ),
    {
        match self.require_admin(&admin) {
            Err(e) => {
                return Err(e);
            },
            Ok(()) => {},
        }
        if max_products == 0 {
            return Err(Error::InvalidMaxProducts);
        }
        self.max_products_per_pool = Some(max_products);
        self.demand(admin);
        self.emit(Event::MaxProductsUpdated { max_products });
        assert(self@ =~= after(
            old(self)@,
            old(self)@.set_max_products_per_pool(admin, max_products),
        ));
        Ok(())
    }

    /// Set how long before its end a policy counts as expiring soon.
    pub fn set_expiry_warning_window(&mut self, admin: Addr, window: u64) -> (r: Result<
        (),
        Error,
    >)
        ensures
            r == answer(old(self)@.set_expiry_warning_window(admin, window)),
            final(self)@ == after(old(self)@, old(self)@.set_expiry_warning_window(admin, window)),
    {
        match self.require_admin(&admin) {
            Err(e) => {
                return Err(e);
            },
            Ok(()) => {},
        }
        if window == 0 {
            return Err(Error::InvalidWarningWindow);
        }
        self.expiry_warning_window = Some(window);
        self.demand(admin);
        self.emit(Event::ExpiryWarningWindowUpdated(ExpiryWarningWindowUpdated { window }));
        assert(self@ =~= after(old(self)@, old(self)@.set_expiry_warning_window(admin, window)));
        Ok(())
    }

    /// How long before its end a policy counts as expiring soon, in seconds.
    pub fn get_expiry_warning_window(&self) -> (r: u64)
        ensures
            r == self@.warning_window(),
    {
        match self.expiry_warning_window {
            Some(w) => w,
            None => DEFAULT_EXPIRY_WARNING_WINDOW,
        }
    }

    fn expiry_state(policy: &Policy, now: u64, window: u64) -> (r: ExpiryState)
        ensures
            r == state::expiry_state_of(*policy, now, window),
    {
        if policy.status != PolicyStatus::Active {
            ExpiryState::NotActive
        } else if now >= policy.end_time {
            ExpiryState::Lapsed
        } else if policy.end_time - now <= window {
            ExpiryState::ExpiringSoon
        } else {
            ExpiryState::Active
        }
    }

    /// Where a policy stands relative to its own expiry.
    pub fn get_policy_expiry_info(&self, now: u64, policy_id: u128) -> (r: Result<
        PolicyExpiryInfo,
        Error,
    >)
        ensures
            r == if self@.policies.contains_key(policy_id) {
                Ok(self@.expiry_info(now, policy_id))
            } else {
                Err(Error::PolicyNotFound)
            },
    {
        let policy = match self.load_policy(policy_id) {
            Ok(p) => p,
            Err(e) => {
                return Err(e);
            },
        };
        let state = Self::expiry_state(&policy, now, self.get_expiry_warning_window());
        Ok(
            PolicyExpiryInfo {
                policy_id,
                state,
                end_time: policy.end_time,
                seconds_remaining: policy.end_time.saturating_sub(now),
                warned: self.expiry_warned.contains(&policy_id),
            },
        )
    }

    /// Emit the warning for a policy where one is due; say whether it was.
    fn warn_if_due(&mut self, now: u64, policy_id: u128) -> (r: bool)
        ensures
            r == old(self)@.warning_due(now, policy_id),
            final(self)@ == if r {
                old(self)@.warn(now, policy_id)
            } else {
                old(self)@
            },
    {
        let policy = match self.policies.get(&policy_id) {
            Some(p) => *p,
            None => {
                return false;
            },
        };
        match Self::expiry_state(&policy, now, self.get_expiry_warning_window()) {
            ExpiryState::ExpiringSoon => {},
            _ => {
                return false;
            },
        }
        if self.expiry_warned.contains(&policy_id) {
            return false;
        }
        self.expiry_warned.insert(policy_id, true);
        assert(self@ =~= (EngineState {
            expiry_warned: old(self)@.expiry_warned.insert(policy_id, true),
            ..old(self)@
        }));
        self.emit(
            Event::PolicyExpiringSoon(
                PolicyExpiringSoon {
                    policy_id,
                    policyholder: policy.policyholder,
                    product_id: policy.product_id,
                    coverage_amount: policy.coverage_amount,
                    end_time: policy.end_time,
                    seconds_remaining: policy.end_time - now,
                },
            ),
        );
        true
    }

    /// Announce that a policy is about to expire. Anyone may ask for it; it
    /// happens at most once per policy.
    pub fn notify_policy_expiring(&mut self, now: u64, policy_id: u128) -> (r: Result<(), Error>)
        ensures
            r == answer(old(self)@.notify_policy_expiring(now, policy_id)),
            final(self)@ == after(old(self)@, old(self)@.notify_policy_expiring(now, policy_id)),
    {
        if !self.policies.contains(&policy_id) {
            return Err(Error::PolicyNotFound);
        }
        if self.warn_if_due(now, policy_id) {
            Ok(())
        } else {
            Err(Error::NotExpiringSoon)
        }
    }

    /// Announce every policy of a holder that is about to expire and was not
    /// announced before, among the first few from position `offset` on. Returns
    /// the number of announcements.
    pub fn notify_expiring_policies(&mut self, now: u64, user: Addr, offset: u32) -> (r: u32)
        ensures
            ({
                let ids = list_at(old(self)@.user_policies, user);
                let (s, n) = old(self)@.warn_range(
                    now,
                    ids,
                    offset as int,
                    EngineState::sweep_end(offset, ids.len()),
                );
                r == n && final(self)@ == s
            }),
    {
        let ghost ids = list_at(self@.user_policies, user);
        let ghost end = EngineState::sweep_end(offset, ids.len());
        let mut emitted: u32 = 0;
        let mut scanned: u32 = 0;
        let mut more = true;
        while more
            invariant
                ids == list_at(old(self)@.user_policies, user),
                end == EngineState::sweep_end(offset, ids.len()),
                self@.user_policies == old(self)@.user_policies,
                scanned <= MAX_EXPIRY_SCAN,
                emitted <= scanned,
                scanned == 0 || offset + scanned <= end,
                old(self)@.warn_range(now, ids, offset as int, offset + scanned) == (
                    self@,
                    emitted as nat,
                ),
                !more ==> offset + scanned >= end,
            decreases (if more { 1int } else { 0 }) + MAX_EXPIRY_SCAN - scanned,
        {
            let next: Option<u128> = match self.user_policies.get(&user) {
                Some(v) => if scanned < MAX_EXPIRY_SCAN && (offset as u64 + scanned as u64) < v.len()
                as u64 {
                    Some(v[(offset as u64 + scanned as u64) as usize])
                } else {
                    None
                },
                None => None,
            };
            match next {
                Some(policy_id) => {
                    if self.warn_if_due(now, policy_id) {
                        emitted = emitted + 1;
                    }
                    scanned = scanned + 1;
                },
                None => {
                    more = false;
                },
            }
        }
        proof {
            if offset + scanned > end {
                assert(scanned == 0);
            }
        }
        emitted
    }

    /// Replace the engine's code, migrating what is stored to the layout of the
    /// new version.
    pub fn upgrade(&mut self, admin: Addr, new_wasm_hash: [u8; 32], new_version: u32) -> (r: Result<
        (),
        Error,
    >)
        ensures
            r == answer(old(self)@.upgrade(admin, new_wasm_hash, new_version)),
            final(self)@ == after(
                old(self)@,
                old(self)@.upgrade(admin, new_wasm_hash, new_version),
            ),
    {
        match self.require_admin(&admin) {
            Err(e) => {
                return Err(e);
            },
            Ok(()) => {},
        }
        let old_version: u32 = self.get_version();
        if new_version <= old_version {
            return Err(Error::InvalidVersion);
        }
        match self.run_migrations(old_version, new_version) {
            Err(e) => {
                return Err(e);
            },
            Ok(()) => {},
        }
        self.version = Some(new_version);
        self.demand(admin);
        self.send(Effect::ReplaceCode(new_wasm_hash));
        self.emit(Event::ContractUpgraded(ContractUpgraded { old_version, new_version }));
        assert(self@ =~= after(old(self)@, old(self)@.upgrade(admin, new_wasm_hash, new_version)));
        Ok(())
    }

    /// Run the migrations that lead from one storage layout to a later one.
    fn run_migrations(&mut self, old_version: u32, new_version: u32) -> (r: Result<(), Error>)
        requires
            old_version == old(self)@.stored_version(),
        ensures
            r == if old_version == 0 || new_version <= old_version || new_version
                > CURRENT_STORAGE_VERSION {
                Err(Error::InvalidVersion)
            } else {
                Ok(())
            },
            final(self)@ == if r is Ok {
                old(self)@.migrated()
            } else {
                old(self)@
            },
    {
        if old_version == 0 || new_version <= old_version || new_version > CURRENT_STORAGE_VERSION {
            return Err(Error::InvalidVersion);
        }
        let mut version: u32 = old_version;
        while version < new_version
            invariant
                1 <= old_version <= version <= new_version <= CURRENT_STORAGE_VERSION,
                old_version == old(self)@.stored_version(),
                self@ == if version == old_version {
                    old(self)@
                } else {
                    old(self)@.migrated()
                },
            decreases new_version - version,
        {
            if version == 1 {
                self.migrate_v1_to_v2();
            } else {
                self.migrate_v2_to_v3();
            }
            version = version + 1;
        }
        Ok(())
    }

    fn migrate_v1_to_v2(&mut self)
        ensures
            final(self)@ == if old(self)@.max_products_per_pool is None {
                EngineState {
                    max_products_per_pool: Some(DEFAULT_MAX_PRODUCTS_PER_POOL),
                    ..old(self)@
                }
            } else {
                old(self)@
            },
    {
        if self.max_products_per_pool.is_none() {
            self.max_products_per_pool = Some(DEFAULT_MAX_PRODUCTS_PER_POOL);
            assert(self@ =~= (EngineState {
                max_products_per_pool: Some(DEFAULT_MAX_PRODUCTS_PER_POOL),
                ..old(self)@
            }));
        }
    }

    fn migrate_v2_to_v3(&mut self)
        ensures
            final(self)@ == old(self)@,
    {
    }
}

/// Whether a symbol is spelled `text`.
fn is_text(symbol: &Sym, text: &[u8]) -> (r: bool)
    ensures
        r == (symbol@ == text@),
{
    if symbol.len() != text.len() {
        return false;
    }
    let mut i: usize = 0;
    while i < text.len()
        invariant
            i <= text@.len() == symbol@.len(),
            forall|j: int| 0 <= j < i ==> symbol@[j] == text@[j],
        decreases text.len() - i,
    {
        if symbol.byte(i) != text[i] {
            return false;
        }
        i += 1;
    }
    assert(symbol@ =~= text@);
    true
}

} // verus!
