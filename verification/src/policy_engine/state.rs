//! The engine's state as mathematics, and what each request does to it.

use crate::arith::{clamp_i128, fits_i128, least, trunc_div};
use crate::common::{is_address_text, is_contract_text, or_default, timelock_end};
use crate::policy_engine::types::{
    AdminUpdated, BatchBuyItem, ClaimsProcessorUpdated, ContractUpgraded, CreateProductParams,
    Effect, Error, Event, ExpiryState, ExpiryWarningWindowUpdated, Initialized, InsuranceProduct,
    Policy, PolicyCancelled, PolicyExpired, PolicyExpiringSoon, PolicyExpiryInfo, PolicyStatus,
    PolicyTransferred, ProductCreated, ProductPaused, ProductStats, ProductStatus,
};
use crate::table::list_at;
use crate::text::{Addr, Sym};
use vstd::prelude::*;

verus! {

/// Products that one category may hold when no other limit was set.
pub const DEFAULT_MAX_PRODUCTS_PER_POOL: u32 = 100;

/// The newest storage layout.
pub const CURRENT_STORAGE_VERSION: u32 = 3;

/// Most policies that one batch may buy.
pub const MAX_BATCH_BUY: usize = 20;

/// Seconds before its end at which a policy counts as expiring soon, when no
/// other window was set: seven days.
pub const DEFAULT_EXPIRY_WARNING_WINDOW: u64 = 7 * 24 * 60 * 60;

/// Most policies that one sweep for expiring policies looks at.
pub const MAX_EXPIRY_SCAN: u32 = 50;

/// Largest trigger threshold.
pub const MAX_TRIGGER_THRESHOLD: i128 = 1_000_000_000_000_000_000_000;

/// Largest coverage that can be bought, whatever the product allows.
pub const MAX_COVERAGE: i128 = 1_000_000_000_000;

/// Longest duration that a product can allow, in days.
pub const MAX_DURATION_DAYS: u32 = 3650;

/// Everything the engine remembers.
#[verifier::ext_equal]
pub struct EngineState {
    pub initialized: bool,
    pub admin: Option<Addr>,
    pub usdc_token: Option<Addr>,
    pub oracle_address: Option<Addr>,
    pub claims_processor: Option<Addr>,
    pub products: Map<u128, InsuranceProduct>,
    pub policies: Map<u128, Policy>,
    pub user_policies: Map<Addr, Seq<u128>>,
    pub active_products: Seq<u128>,
    pub next_product_id: Option<u128>,
    pub next_policy_id: Option<u128>,
    pub paused: bool,
    pub product_keys: Map<(Sym, Sym), u128>,
    pub product_names: Map<Sym, u128>,
    pub pending_admin: Option<Addr>,
    pub pending_admin_since: Option<u64>,
    pub max_products_per_pool: Option<u32>,
    pub pool_product_count: Map<Sym, u32>,
    pub version: Option<u32>,
    pub expiry_warning_window: Option<u64>,
    pub expiry_warned: Map<u128, bool>,
    pub outbox: Seq<Effect>,
}

pub open spec fn is_letter(b: u8) -> bool {
    97 <= b <= 122 || 65 <= b <= 90
}

pub open spec fn is_digit(b: u8) -> bool {
    48 <= b <= 57
}

/// Whether `text` can name an oracle measurement: 3 to 32 letters, digits and
/// underscores, at least one letter, no underscore at either end and no two in
/// a row.
pub open spec fn is_oracle_key(text: Seq<u8>) -> bool {
    &&& 3 <= text.len() <= 32
    &&& text[0] != 95
    &&& text.last() != 95
    &&& forall|i: int|
        0 <= i < text.len() ==> is_letter(#[trigger] text[i]) || is_digit(text[i]) || text[i] == 95
    &&& forall|i: int, j: int|
        0 <= i < text.len() && j == i + 1 && j < text.len() ==> !(#[trigger] text[i] == 95
            && #[trigger] text[j] == 95)
    &&& exists|i: int| 0 <= i < text.len() && is_letter(#[trigger] text[i])
}

/// Whether `text` is one of "crop", "flight", "disaster", "health", "defi".
pub open spec fn is_category_text(text: Seq<u8>) -> bool {
    ||| text == seq![99u8, 114u8, 111u8, 112u8]
    ||| text == seq![102u8, 108u8, 105u8, 103u8, 104u8, 116u8]
    ||| text == seq![100u8, 105u8, 115u8, 97u8, 115u8, 116u8, 101u8, 114u8]
    ||| text == seq![104u8, 101u8, 97u8, 108u8, 116u8, 104u8]
    ||| text == seq![100u8, 101u8, 102u8, 105u8]
}

/// The premium for a cover of `coverage` over `days` days at a yearly rate of
/// `bps` basis points.
pub open spec fn premium_of(coverage: int, bps: int, days: int) -> int {
    trunc_div(trunc_div(coverage * bps * days, 365), 10_000)
}

/// The share of the premium that a policy cancelled at `now` has used up.
pub open spec fn earned_premium(p: Policy, now: u64) -> int {
    let total = p.end_time - p.start_time;
    let elapsed = if now >= p.start_time {
        now - p.start_time
    } else {
        0
    };
    trunc_div(p.premium_paid * least(elapsed, total), total)
}

/// Whether the used-up share cannot be computed in the engine's arithmetic.
pub open spec fn refund_overflows(p: Policy, now: u64) -> bool {
    let total = p.end_time - p.start_time;
    let elapsed = if now >= p.start_time {
        now - p.start_time
    } else {
        0
    };
    p.end_time > p.start_time && !fits_i128(p.premium_paid * least(elapsed, total))
}

/// What the holder gets back when the policy is cancelled at `now`.
pub open spec fn refund_of(p: Policy, now: u64) -> int {
    if p.end_time <= p.start_time {
        p.premium_paid as int
    } else {
        clamp_i128(p.premium_paid - earned_premium(p, now))
    }
}

/// Where a policy stands relative to its expiry at `now`.
pub open spec fn expiry_state_of(p: Policy, now: u64, window: u64) -> ExpiryState {
    if p.status != PolicyStatus::Active {
        ExpiryState::NotActive
    } else if now >= p.end_time {
        ExpiryState::Lapsed
    } else if p.end_time - now <= window {
        ExpiryState::ExpiringSoon
    } else {
        ExpiryState::Active
    }
}

/// Why the claims processor can no longer settle a policy of this status.
pub open spec fn settle_error(status: PolicyStatus) -> Option<Error> {
    match status {
        PolicyStatus::Active => None,
        PolicyStatus::Claimed => Some(Error::AlreadyClaimed),
        PolicyStatus::Expired => Some(Error::AlreadyExpired),
        PolicyStatus::Cancelled => Some(Error::PolicyNotActive),
    }
}

/// How many of the policies are active.
pub open spec fn active_among(policies: Seq<Policy>) -> nat
    decreases policies.len(),
{
    if policies.len() == 0 {
        0
    } else {
        active_among(policies.drop_last()) + if policies.last().status == PolicyStatus::Active {
            1nat
        } else {
            0
        }
    }
}

/// The coverage of the policies added up, held at the ends of the range.
pub open spec fn coverage_sum(policies: Seq<Policy>) -> int
    decreases policies.len(),
{
    if policies.len() == 0 {
        0
    } else {
        clamp_i128(coverage_sum(policies.drop_last()) + policies.last().coverage_amount)
    }
}

/// The premiums of the policies added up, held at the ends of the range.
pub open spec fn premium_sum(policies: Seq<Policy>) -> int
    decreases policies.len(),
{
    if policies.len() == 0 {
        0
    } else {
        clamp_i128(premium_sum(policies.drop_last()) + policies.last().premium_paid)
    }
}

impl EngineState {
    /// The state before anything was stored.
    pub open spec fn fresh() -> EngineState {
        EngineState {
            initialized: false,
            admin: None,
            usdc_token: None,
            oracle_address: None,
            claims_processor: None,
            products: Map::empty(),
            policies: Map::empty(),
            user_policies: Map::empty(),
            active_products: Seq::empty(),
            next_product_id: None,
            next_policy_id: None,
            paused: false,
            product_keys: Map::empty(),
            product_names: Map::empty(),
            pending_admin: None,
            pending_admin_since: None,
            max_products_per_pool: None,
            pool_product_count: Map::empty(),
            version: None,
            expiry_warning_window: None,
            expiry_warned: Map::empty(),
            outbox: Seq::empty(),
        }
    }

    pub open spec fn send(self, e: Effect) -> EngineState {
        EngineState { outbox: self.outbox.push(e), ..self }
    }

    pub open spec fn emit(self, e: Event) -> EngineState {
        self.send(Effect::Emit(e))
    }

    /// The state with a demand that `who` authorised the call.
    pub open spec fn demand(self, who: Addr) -> EngineState {
        self.send(Effect::RequireAuth(who))
    }

    /// The number that the next product gets.
    pub open spec fn product_counter(self) -> u128 {
        or_default(self.next_product_id, 1)
    }

    /// The number that the next policy gets.
    pub open spec fn policy_counter(self) -> u128 {
        or_default(self.next_policy_id, 1)
    }

    pub open spec fn max_products(self) -> u32 {
        or_default(self.max_products_per_pool, DEFAULT_MAX_PRODUCTS_PER_POOL)
    }

    pub open spec fn pool_count(self, category: Sym) -> u32 {
        if self.pool_product_count.contains_key(category) {
            self.pool_product_count[category]
        } else {
            0
        }
    }

    pub open spec fn warning_window(self) -> u64 {
        or_default(self.expiry_warning_window, DEFAULT_EXPIRY_WARNING_WINDOW)
    }

    pub open spec fn stored_version(self) -> u32 {
        or_default(self.version, 1)
    }

    /// Why `caller` may not act as the administrator.
    pub open spec fn admin_error(self, caller: Addr) -> Option<Error> {
        match self.admin {
            None => Some(Error::NotInitialized),
            Some(admin) => if caller == admin {
                None
            } else {
                Some(Error::Unauthorized)
            },
        }
    }

    /// Why `caller` may not act as the claims processor.
    pub open spec fn processor_error(self, caller: Addr) -> Option<Error> {
        match self.claims_processor {
            None => Some(Error::ClaimsProcessorNotSet),
            Some(cp) => if caller == cp {
                None
            } else {
                Some(Error::Unauthorized)
            },
        }
    }

    pub open spec fn initialize(
        self,
        admin: Addr,
        usdc_token: Addr,
        oracle_address: Addr,
        token_answers: bool,
    ) -> Result<(EngineState, ()), Error> {
        if self.initialized {
            Err(Error::AlreadyInitialized)
        } else if !is_address_text(admin@) || !is_contract_text(usdc_token@) || !is_contract_text(
            oracle_address@,
        ) {
            Err(Error::InvalidAddress)
        } else if !token_answers {
            Err(Error::InvalidToken)
        } else {
            let next = EngineState {
                initialized: true,
                admin: Some(admin),
                usdc_token: Some(usdc_token),
                oracle_address: Some(oracle_address),
                next_product_id: Some(1),
                next_policy_id: Some(1),
                active_products: Seq::empty(),
                max_products_per_pool: Some(DEFAULT_MAX_PRODUCTS_PER_POOL),
                pending_admin: None,
                ..self
            };
            Ok((
                next.demand(admin).emit(
                    Event::Initialized(Initialized { admin, usdc_token, oracle_address }),
                ),
                (),
            ))
        }
    }

    pub open spec fn set_claims_processor(self, admin: Addr, claims_processor: Addr) -> Result<
        (EngineState, ()),
        Error,
    > {
        match self.admin_error(admin) {
            Some(e) => Err(e),
            None => Ok((
                EngineState { claims_processor: Some(claims_processor), ..self }.demand(admin).emit(
                    Event::ClaimsProcessorUpdated(ClaimsProcessorUpdated { claims_processor }),
                ),
                (),
            )),
        }
    }

    /// Why the parameters of a product are refused, whatever the engine holds.
    pub open spec fn params_error(p: CreateProductParams) -> Option<Error> {
        if p.premium_rate_bps == 0 || p.premium_rate_bps > 10_000 {
            Some(Error::InvalidPremiumRate)
        } else if p.trigger_threshold <= 0 || p.trigger_threshold > MAX_TRIGGER_THRESHOLD {
            Some(Error::InvalidTriggerThreshold)
        } else if p.coverage_min <= 0 || p.coverage_min >= p.coverage_max {
            Some(Error::InvalidCoverageRange)
        } else if p.max_duration_days == 0 || p.max_duration_days > MAX_DURATION_DAYS {
            Some(Error::InvalidDurationRange)
        } else if !is_oracle_key(p.oracle_key@) {
            Some(Error::InvalidOracleKey)
        } else if !is_category_text(p.category@) {
            Some(Error::InvalidCategory)
        } else {
            None
        }
    }

    /// Why a product is refused.
    pub open spec fn create_product_error(self, admin: Addr, p: CreateProductParams) -> Option<
        Error,
    > {
        match self.admin_error(admin) {
            Some(e) => Some(e),
            None => match Self::params_error(p) {
                Some(e) => Some(e),
                None => if self.product_keys.contains_key((p.category, p.oracle_key)) {
                    Some(Error::DuplicateProductKey)
                } else if self.product_names.contains_key(p.name) {
                    Some(Error::DuplicateProductName)
                } else if self.pool_count(p.category) >= self.max_products() {
                    Some(Error::TooManyProducts)
                } else {
                    None
                },
            },
        }
    }

    /// The product that the parameters describe.
    pub open spec fn new_product(self, now: u64, p: CreateProductParams) -> InsuranceProduct {
        InsuranceProduct {
            id: self.product_counter(),
            name: p.name,
            category: p.category,
            oracle_key: p.oracle_key,
            trigger_type: p.trigger_type,
            oracle_data_type: p.oracle_data_type,
            trigger_threshold: p.trigger_threshold,
            trigger_comparison: p.trigger_comparison,
            coverage_min: p.coverage_min,
            coverage_max: p.coverage_max,
            premium_rate_bps: p.premium_rate_bps,
            max_duration_days: p.max_duration_days,
            status: ProductStatus::Active,
            created_at: now,
        }
    }

    pub open spec fn create_product(self, now: u64, admin: Addr, p: CreateProductParams) -> Result<
        (EngineState, u128),
        Error,
    > {
        match self.create_product_error(admin, p) {
            Some(e) => Err(e),
            None => {
                let id = self.product_counter();
                let next = EngineState {
                    products: self.products.insert(id, self.new_product(now, p)),
                    product_keys: self.product_keys.insert((p.category, p.oracle_key), id),
                    product_names: self.product_names.insert(p.name, id),
                    active_products: self.active_products.push(id),
                    pool_product_count: self.pool_product_count.insert(
                        p.category,
                        (self.pool_count(p.category) + 1) as u32,
                    ),
                    next_product_id: Some((id + 1) as u128),
                    ..self
                };
                Ok((
                    next.demand(admin).emit(
                        Event::ProductCreated(
                            ProductCreated {
                                product_id: id,
                                name: p.name,
                                category: p.category,
                                premium_rate_bps: p.premium_rate_bps,
                            },
                        ),
                    ),
                    id,
                ))
            },
        }
    }

    pub open spec fn pause_product(self, admin: Addr, product_id: u128) -> Result<
        (EngineState, ()),
        Error,
    > {
        match self.admin_error(admin) {
            Some(e) => Err(e),
            None => if !self.products.contains_key(product_id) {
                Err(Error::ProductNotFound)
            } else if self.products[product_id].status == ProductStatus::Deprecated {
                Err(Error::ProductNotActive)
            } else {
                let next = EngineState {
                    products: self.products.insert(
                        product_id,
                        InsuranceProduct {
                            status: ProductStatus::Paused,
                            ..self.products[product_id]
                        },
                    ),
                    active_products: self.active_products.remove_value(product_id),
                    ..self
                };
                Ok((
                    next.demand(admin).emit(Event::ProductPaused(ProductPaused { product_id })),
                    (),
                ))
            },
        }
    }

    pub open spec fn deprecate_product(self, admin: Addr, product_id: u128) -> Result<
        (EngineState, ()),
        Error,
    > {
        match self.admin_error(admin) {
            Some(e) => Err(e),
            None => if !self.products.contains_key(product_id) {
                Err(Error::ProductNotFound)
            } else if self.products[product_id].status == ProductStatus::Deprecated {
                Err(Error::ProductNotActive)
            } else {
                let product = self.products[product_id];
                let count = self.pool_count(product.category);
                let next = EngineState {
                    products: self.products.insert(
                        product_id,
                        InsuranceProduct { status: ProductStatus::Deprecated, ..product },
                    ),
                    active_products: self.active_products.remove_value(product_id),
                    pool_product_count: if count > 0 {
                        self.pool_product_count.insert(product.category, (count - 1) as u32)
                    } else {
                        self.pool_product_count
                    },
                    product_keys: self.product_keys.remove((product.category, product.oracle_key)),
                    ..self
                };
                Ok((next.demand(admin), ()))
            },
        }
    }

    /// Why a purchase is refused.
    pub open spec fn buy_error(
        self,
        now: u64,
        product_id: u128,
        coverage_amount: i128,
        duration_days: u32,
    ) -> Option<Error> {
        if !self.products.contains_key(product_id) {
            Some(Error::ProductNotFound)
        } else {
            let product = self.products[product_id];
            if product.status != ProductStatus::Active {
                Some(Error::ProductNotActive)
            } else if coverage_amount < product.coverage_min || coverage_amount
                > product.coverage_max {
                Some(Error::CoverageOutOfRange)
            } else if duration_days == 0 || duration_days > product.max_duration_days {
                Some(Error::DurationTooLong)
            } else if coverage_amount > MAX_COVERAGE || !fits_i128(
                coverage_amount * product.premium_rate_bps,
            ) || !fits_i128(coverage_amount * product.premium_rate_bps * duration_days) {
                Some(Error::CoverageOutOfRange)
            } else if self.usdc_token is None {
                Some(Error::NotInitialized)
            } else if now + duration_days * 86_400 > u64::MAX {
                Some(Error::CoverageOutOfRange)
            } else {
                None
            }
        }
    }

    /// The policy that a purchase creates.
    pub open spec fn new_policy(
        self,
        now: u64,
        buyer: Addr,
        product_id: u128,
        coverage_amount: i128,
        duration_days: u32,
        oracle_key: Sym,
    ) -> Policy {
        let product = self.products[product_id];
        Policy {
            id: self.policy_counter(),
            product_id,
            policyholder: buyer,
            coverage_amount,
            premium_paid: premium_of(
                coverage_amount as int,
                product.premium_rate_bps as int,
                duration_days as int,
            ) as i128,
            oracle_key,
            oracle_data_type: product.oracle_data_type,
            trigger_threshold: product.trigger_threshold,
            trigger_comparison: product.trigger_comparison,
            start_time: now,
            end_time: (now + duration_days * 86_400) as u64,
            status: PolicyStatus::Active,
            created_at: now,
        }
    }

    /// The purchase itself, once the buyer has authorised it.
    pub open spec fn buy_policy_inner(
        self,
        now: u64,
        buyer: Addr,
        product_id: u128,
        coverage_amount: i128,
        duration_days: u32,
        oracle_key: Sym,
    ) -> Result<(EngineState, u128), Error> {
        match self.buy_error(now, product_id, coverage_amount, duration_days) {
            Some(e) => Err(e),
            None => {
                let policy = self.new_policy(
                    now,
                    buyer,
                    product_id,
                    coverage_amount,
                    duration_days,
                    oracle_key,
                );
                let id = policy.id;
                let next = EngineState {
                    policies: self.policies.insert(id, policy),
                    user_policies: self.user_policies.insert(
                        buyer,
                        list_at(self.user_policies, buyer).push(id),
                    ),
                    next_policy_id: Some((id + 1) as u128),
                    ..self
                };
                Ok((
                    next.send(
                        Effect::Collect {
                            token: self.usdc_token->0,
                            from: buyer,
                            amount: policy.premium_paid,
                        },
                    ).emit(
                        Event::PolicyBought {
                            buyer,
                            policy_id: id,
                            product_id,
                            coverage_amount,
                            premium: policy.premium_paid,
                        },
                    ),
                    id,
                ))
            },
        }
    }

    pub open spec fn buy_policy(
        self,
        now: u64,
        buyer: Addr,
        product_id: u128,
        coverage_amount: i128,
        duration_days: u32,
        oracle_key: Sym,
    ) -> Result<(EngineState, u128), Error> {
        if self.paused {
            Err(Error::Unauthorized)
        } else {
            self.demand(buyer).buy_policy_inner(
                now,
                buyer,
                product_id,
                coverage_amount,
                duration_days,
                oracle_key,
            )
        }
    }

    /// The first `n` items of a batch bought one after the other.
    pub open spec fn buy_items(self, now: u64, buyer: Addr, items: Seq<BatchBuyItem>, n: nat) -> Result<
        (EngineState, Seq<u128>),
        Error,
    >
        decreases n,
    {
        if n == 0 {
            Ok((self, Seq::empty()))
        } else {
            match self.buy_items(now, buyer, items, (n - 1) as nat) {
                Err(e) => Err(e),
                Ok((s, ids)) => {
                    let item = items[n - 1];
                    match s.buy_policy_inner(
                        now,
                        buyer,
                        item.product_id,
                        item.coverage_amount,
                        item.duration_days,
                        item.oracle_key,
                    ) {
                        Err(e) => Err(e),
                        Ok((t, id)) => Ok((t, ids.push(id))),
                    }
                },
            }
        }
    }

    pub open spec fn batch_buy_policy(self, now: u64, buyer: Addr, items: Seq<BatchBuyItem>) -> Result<
        (EngineState, Seq<u128>),
        Error,
    > {
        if self.paused {
            Err(Error::Unauthorized)
        } else if items.len() == 0 {
            Err(Error::EmptyBatch)
        } else if items.len() > MAX_BATCH_BUY {
            Err(Error::BatchTooLarge)
        } else {
            self.demand(buyer).buy_items(now, buyer, items, items.len())
        }
    }

    /// The state with `policy_id` no longer in the list of `user`.
    pub open spec fn without_user_policy(self, user: Addr, policy_id: u128) -> EngineState {
        if list_at(self.user_policies, user).contains(policy_id) {
            EngineState {
                user_policies: self.user_policies.insert(
                    user,
                    self.user_policies[user].remove_value(policy_id),
                ),
                ..self
            }
        } else {
            self
        }
    }

    /// The state with a policy's status changed and the policy off its
    /// holder's list.
    pub open spec fn close_policy(self, policy_id: u128, status: PolicyStatus) -> EngineState {
        let policy = self.policies[policy_id];
        EngineState {
            policies: self.policies.insert(policy_id, Policy { status, ..policy }),
            ..self
        }.without_user_policy(policy.policyholder, policy_id)
    }

    pub open spec fn cancel_policy(self, now: u64, policyholder: Addr, policy_id: u128) -> Result<
        (EngineState, i128),
        Error,
    > {
        if !self.policies.contains_key(policy_id) {
            Err(Error::PolicyNotFound)
        } else {
            let policy = self.policies[policy_id];
            if policy.policyholder != policyholder {
                Err(Error::Unauthorized)
            } else if policy.status != PolicyStatus::Active {
                Err(Error::PolicyNotActive)
            } else if refund_overflows(policy, now) {
                Err(Error::Overflow)
            } else if self.usdc_token is None {
                Err(Error::NotInitialized)
            } else {
                let refund = refund_of(policy, now) as i128;
                let closed = self.demand(policyholder).close_policy(
                    policy_id,
                    PolicyStatus::Cancelled,
                );
                let paid = if refund > 0 {
                    closed.send(
                        Effect::Pay { token: self.usdc_token->0, to: policyholder, amount: refund },
                    )
                } else {
                    closed
                };
                Ok((
                    paid.emit(
                        Event::PolicyCancelled(
                            PolicyCancelled { policy_id, policyholder, refund_amount: refund },
                        ),
                    ),
                    refund,
                ))
            }
        }
    }

    pub open spec fn transfer_policy(self, from: Addr, to: Addr, policy_id: u128) -> Result<
        (EngineState, ()),
        Error,
    > {
        if self.paused {
            Err(Error::Unauthorized)
        } else if !is_address_text(to@) {
            Err(Error::InvalidAddress)
        } else if !self.policies.contains_key(policy_id) {
            Err(Error::PolicyNotFound)
        } else {
            let policy = self.policies[policy_id];
            let asked = self.demand(from).demand(to);
            if policy.policyholder != from {
                Err(Error::Unauthorized)
            } else if policy.status != PolicyStatus::Active {
                Err(Error::PolicyNotActive)
            } else if from == to {
                Ok((asked, ()))
            } else {
                let moved = EngineState {
                    policies: self.policies.insert(
                        policy_id,
                        Policy { policyholder: to, ..policy },
                    ),
                    ..asked
                }.without_user_policy(from, policy_id);
                let next = EngineState {
                    user_policies: moved.user_policies.insert(
                        to,
                        list_at(moved.user_policies, to).push(policy_id),
                    ),
                    ..moved
                };
                Ok((
                    next.emit(
                        Event::PolicyTransferred(PolicyTransferred { policy_id, from, to }),
                    ),
                    (),
                ))
            }
        }
    }

    /// Why a policy cannot be paid out, apart from the transfer itself.
    pub open spec fn pay_claim_error(self, caller: Addr, policy_id: u128) -> Option<Error> {
        match self.processor_error(caller) {
            Some(e) => Some(e),
            None => if !self.policies.contains_key(policy_id) {
                Some(Error::PolicyNotFound)
            } else {
                match settle_error(self.policies[policy_id].status) {
                    Some(e) => Some(e),
                    None => if self.usdc_token is None {
                        Some(Error::NotInitialized)
                    } else {
                        None
                    },
                }
            },
        }
    }

    pub open spec fn pay_claim(self, caller: Addr, policy_id: u128, transferred: bool) -> Result<
        (EngineState, ()),
        Error,
    > {
        match self.pay_claim_error(caller, policy_id) {
            Some(e) => Err(e),
            None => if !transferred {
                Err(Error::InsufficientPool)
            } else {
                let policy = self.policies[policy_id];
                Ok((
                    self.demand(caller).close_policy(policy_id, PolicyStatus::Claimed).emit(
                        Event::ClaimPaid {
                            policy_id,
                            policyholder: policy.policyholder,
                            coverage_amount: policy.coverage_amount,
                        },
                    ),
                    (),
                ))
            },
        }
    }

    pub open spec fn expire_policy(self, caller: Addr, policy_id: u128) -> Result<
        (EngineState, ()),
        Error,
    > {
        match self.processor_error(caller) {
            Some(e) => Err(e),
            None => if !self.policies.contains_key(policy_id) {
                Err(Error::PolicyNotFound)
            } else {
                match settle_error(self.policies[policy_id].status) {
                    Some(e) => Err(e),
                    None => Ok((
                        self.demand(caller).close_policy(policy_id, PolicyStatus::Expired).emit(
                            Event::PolicyExpired(PolicyExpired { policy_id }),
                        ),
                        (),
                    )),
                }
            },
        }
    }

    /// The policies of a product among those numbered below `n`, oldest first.
    pub open spec fn policies_of(self, product_id: u128, n: nat) -> Seq<Policy>
        decreases n,
    {
        if n <= 1 {
            Seq::empty()
        } else {
            let earlier = self.policies_of(product_id, (n - 1) as nat);
            let id = (n - 1) as u128;
            if self.policies.contains_key(id) && self.policies[id].product_id == product_id {
                earlier.push(self.policies[id])
            } else {
                earlier
            }
        }
    }

    /// The figures of a product.
    pub open spec fn stats_of(self, product_id: u128) -> ProductStats {
        let sold = if self.products.contains_key(product_id) {
            self.policies_of(product_id, self.policy_counter() as nat)
        } else {
            Seq::empty()
        };
        ProductStats {
            product_id,
            total_policies: sold.len() as u32,
            active_policies: active_among(sold) as u32,
            total_coverage: coverage_sum(sold) as i128,
            total_premium_collected: premium_sum(sold) as i128,
        }
    }

    /// Up to `limit` of a holder's policies from position `offset` on.
    pub open spec fn user_page(self, user: Addr, offset: int, limit: int) -> Seq<u128> {
        let all = list_at(self.user_policies, user);
        if offset >= all.len() {
            Seq::empty()
        } else {
            all.subrange(offset, least(offset + limit, all.len() as int))
        }
    }

    /// What is said of a policy's expiry.
    pub open spec fn expiry_info(self, now: u64, policy_id: u128) -> PolicyExpiryInfo {
        let policy = self.policies[policy_id];
        PolicyExpiryInfo {
            policy_id,
            state: expiry_state_of(policy, now, self.warning_window()),
            end_time: policy.end_time,
            seconds_remaining: if now >= policy.end_time {
                0
            } else {
                (policy.end_time - now) as u64
            },
            warned: self.expiry_warned.contains_key(policy_id),
        }
    }

    pub open spec fn set_paused(self, admin: Addr, paused: bool) -> Result<
        (EngineState, ()),
        Error,
    > {
        match self.admin_error(admin) {
            Some(e) => Err(e),
            None => Ok((EngineState { paused, ..self }.demand(admin), ())),
        }
    }

    pub open spec fn propose_new_admin(self, now: u64, admin: Addr, new_admin: Addr) -> Result<
        (EngineState, ()),
        Error,
    > {
        match self.admin_error(admin) {
            Some(e) => Err(e),
            None => if self.pending_admin is Some {
                Err(Error::AdminTransferPending)
            } else {
                Ok((
                    EngineState {
                        pending_admin: Some(new_admin),
                        pending_admin_since: Some(now),
                        ..self
                    }.demand(admin),
                    (),
                ))
            },
        }
    }

    pub open spec fn accept_admin(self, now: u64, admin: Addr) -> Result<(EngineState, ()), Error> {
        if self.pending_admin != Some(admin) {
            Err(Error::Unauthorized)
        } else if now < timelock_end(or_default(self.pending_admin_since, 0)) {
            Err(Error::AdminTimelockNotExpired)
        } else {
            Ok((
                EngineState {
                    admin: Some(admin),
                    pending_admin: None,
                    pending_admin_since: None,
                    ..self
                }.demand(admin).emit(Event::AdminUpdated(AdminUpdated { new_admin: admin })),
                (),
            ))
        }
    }

    pub open spec fn set_max_products_per_pool(self, admin: Addr, max_products: u32) -> Result<
        (EngineState, ()),
        Error,
    > {
        match self.admin_error(admin) {
            Some(e) => Err(e),
            None => if max_products == 0 {
                Err(Error::InvalidMaxProducts)
            } else {
                Ok((
                    EngineState { max_products_per_pool: Some(max_products), ..self }.demand(
                        admin,
                    ).emit(Event::MaxProductsUpdated { max_products }),
                    (),
                ))
            },
        }
    }

    pub open spec fn set_expiry_warning_window(self, admin: Addr, window: u64) -> Result<
        (EngineState, ()),
        Error,
    > {
        match self.admin_error(admin) {
            Some(e) => Err(e),
            None => if window == 0 {
                Err(Error::InvalidWarningWindow)
            } else {
                Ok((
                    EngineState { expiry_warning_window: Some(window), ..self }.demand(admin).emit(
                        Event::ExpiryWarningWindowUpdated(ExpiryWarningWindowUpdated { window }),
                    ),
                    (),
                ))
            },
        }
    }

    /// Whether a warning is owed for a policy: it is active, inside its
    /// warning window, not lapsed, and was not warned about before.
    pub open spec fn warning_due(self, now: u64, policy_id: u128) -> bool {
        &&& self.policies.contains_key(policy_id)
        &&& expiry_state_of(self.policies[policy_id], now, self.warning_window())
            == ExpiryState::ExpiringSoon
        &&& !self.expiry_warned.contains_key(policy_id)
    }

    /// The state once the warning for a policy is out.
    pub open spec fn warn(self, now: u64, policy_id: u128) -> EngineState {
        let policy = self.policies[policy_id];
        EngineState { expiry_warned: self.expiry_warned.insert(policy_id, true), ..self }.emit(
            Event::PolicyExpiringSoon(
                PolicyExpiringSoon {
                    policy_id,
                    policyholder: policy.policyholder,
                    product_id: policy.product_id,
                    coverage_amount: policy.coverage_amount,
                    end_time: policy.end_time,
                    seconds_remaining: (policy.end_time - now) as u64,
                },
            ),
        )
    }

    pub open spec fn notify_policy_expiring(self, now: u64, policy_id: u128) -> Result<
        (EngineState, ()),
        Error,
    > {
        if !self.policies.contains_key(policy_id) {
            Err(Error::PolicyNotFound)
        } else if !self.warning_due(now, policy_id) {
            Err(Error::NotExpiringSoon)
        } else {
            Ok((self.warn(now, policy_id), ()))
        }
    }

    /// The state and the number of warnings once the policies at positions
    /// `from` to `to` of a list were looked at in turn.
    pub open spec fn warn_range(self, now: u64, ids: Seq<u128>, from: int, to: int) -> (
        EngineState,
        nat,
    )
        decreases to - from,
    {
        if to <= from {
            (self, 0)
        } else {
            let (s, n) = self.warn_range(now, ids, from, to - 1);
            if s.warning_due(now, ids[to - 1]) {
                (s.warn(now, ids[to - 1]), n + 1)
            } else {
                (s, n)
            }
        }
    }

    /// The end of the sweep that starts at `offset` in a list of `len`.
    pub open spec fn sweep_end(offset: u32, len: nat) -> int {
        least(offset + MAX_EXPIRY_SCAN, len as int)
    }

    /// The state after the migrations from the stored version.
    pub open spec fn migrated(self) -> EngineState {
        if self.stored_version() == 1 && self.max_products_per_pool is None {
            EngineState {
                max_products_per_pool: Some(DEFAULT_MAX_PRODUCTS_PER_POOL),
                ..self
            }
        } else {
            self
        }
    }

    pub open spec fn upgrade(self, admin: Addr, new_wasm_hash: [u8; 32], new_version: u32) -> Result<
        (EngineState, ()),
        Error,
    > {
        match self.admin_error(admin) {
            Some(e) => Err(e),
            None => {
                let old_version = self.stored_version();
                if old_version == 0 || new_version <= old_version || new_version
                    > CURRENT_STORAGE_VERSION {
                    Err(Error::InvalidVersion)
                } else {
                    Ok((
                        EngineState { version: Some(new_version), ..self.migrated() }.demand(
                            admin,
                        ).send(Effect::ReplaceCode(new_wasm_hash)).emit(
                            Event::ContractUpgraded(ContractUpgraded { old_version, new_version }),
                        ),
                        (),
                    ))
                }
            },
        }
    }
}

impl EngineState {
    /// Buying `n` items that are each acceptable succeeds and touches neither
    /// products nor token, and numbers the policies consecutively.
    pub proof fn lemma_buy_items_ok(
        self,
        now: u64,
        buyer: Addr,
        items: Seq<BatchBuyItem>,
        n: nat,
    )
        requires
            n <= items.len(),
            self.policy_counter() + n <= u128::MAX,
            forall|j: int|
                0 <= j < n ==> self.buy_error(
                    now,
                    (#[trigger] items[j]).product_id,
                    items[j].coverage_amount,
                    items[j].duration_days,
                ) is None,
        ensures
            self.buy_items(now, buyer, items, n) matches Ok((s, ids)) && s.products == self.products
                && s.usdc_token == self.usdc_token && s.policy_counter() == self.policy_counter()
                + n && ids.len() == n && (forall|j: int|
                0 <= j < n ==> #[trigger] ids[j] == self.policy_counter() + j),
        decreases n,
    {
        if n > 0 {
            self.lemma_buy_items_ok(now, buyer, items, (n - 1) as nat);
        }
    }

    /// Looking further finds no fewer policies.
    pub proof fn lemma_policies_of_grow(self, product_id: u128, n: nat, m: nat)
        requires
            n <= m,
        ensures
            self.policies_of(product_id, n).len() <= self.policies_of(product_id, m).len(),
        decreases m,
    {
        if n < m {
            self.lemma_policies_of_grow(product_id, n, (m - 1) as nat);
        }
    }

    /// A batch fails with the error of its first unacceptable item.
    pub proof fn lemma_buy_items_fail(
        self,
        now: u64,
        buyer: Addr,
        items: Seq<BatchBuyItem>,
        i: nat,
        n: nat,
    )
        requires
            i < n <= items.len(),
            self.policy_counter() + n <= u128::MAX,
            forall|j: int|
                0 <= j < i ==> self.buy_error(
                    now,
                    (#[trigger] items[j]).product_id,
                    items[j].coverage_amount,
                    items[j].duration_days,
                ) is None,
            self.buy_error(
                now,
                items[i as int].product_id,
                items[i as int].coverage_amount,
                items[i as int].duration_days,
            ) is Some,
        ensures
            self.buy_items(now, buyer, items, n) == Err::<(EngineState, Seq<u128>), Error>(
                self.buy_error(
                    now,
                    items[i as int].product_id,
                    items[i as int].coverage_amount,
                    items[i as int].duration_days,
                )->0,
            ),
        decreases n,
    {
        if n > i + 1 {
            self.lemma_buy_items_fail(now, buyer, items, i, (n - 1) as nat);
        } else {
            self.lemma_buy_items_ok(now, buyer, items, i);
        }
    }
}

} // verus!
