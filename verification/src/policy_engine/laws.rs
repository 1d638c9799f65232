//! What holds of the engine as a whole.

use crate::arith::least;
use crate::common::{or_default, timelock_end};
use crate::outcome::after;
use crate::policy_engine::state::{EngineState, premium_of, refund_of, refund_overflows};
use crate::policy_engine::types::{
    BatchBuyItem, CreateProductParams, Effect, Error, InsuranceProduct, Policy, PolicyStatus,
    ProductStatus,
};
use crate::table::{lemma_push_value, lemma_remove_value, list_at};
use crate::text::{Addr, Sym};
use vstd::prelude::*;

verus! {

/// A request that can change the engine.
pub enum Request {
    Initialize { admin: Addr, usdc_token: Addr, oracle_address: Addr, token_answers: bool },
    SetClaimsProcessor { admin: Addr, claims_processor: Addr },
    CreateProduct { now: u64, admin: Addr, params: CreateProductParams },
    PauseProduct { admin: Addr, product_id: u128 },
    DeprecateProduct { admin: Addr, product_id: u128 },
    BuyPolicy {
        now: u64,
        buyer: Addr,
        product_id: u128,
        coverage_amount: i128,
        duration_days: u32,
        oracle_key: Sym,
    },
    BatchBuyPolicy { now: u64, buyer: Addr, items: Seq<BatchBuyItem> },
    CancelPolicy { now: u64, policyholder: Addr, policy_id: u128 },
    TransferPolicy { from: Addr, to: Addr, policy_id: u128 },
    PayClaim { caller: Addr, policy_id: u128, transferred: bool },
    ExpirePolicy { caller: Addr, policy_id: u128 },
    SetPaused { admin: Addr, paused: bool },
    ProposeNewAdmin { now: u64, admin: Addr, new_admin: Addr },
    AcceptAdmin { now: u64, admin: Addr },
    SetMaxProductsPerPool { admin: Addr, max_products: u32 },
    SetExpiryWarningWindow { admin: Addr, window: u64 },
    NotifyPolicyExpiring { now: u64, policy_id: u128 },
    NotifyExpiringPolicies { now: u64, user: Addr, offset: u32 },
    Upgrade { admin: Addr, new_wasm_hash: [u8; 32], new_version: u32 },
}

impl EngineState {
    /// The state after a request, whether it was refused or not.
    #[verifier::opaque]
    pub open spec fn apply(self, r: Request) -> EngineState {
        match r {
            Request::Initialize { admin, usdc_token, oracle_address, token_answers } => after(
                self,
                self.initialize(admin, usdc_token, oracle_address, token_answers),
            ),
            Request::SetClaimsProcessor { admin, claims_processor } => after(
                self,
                self.set_claims_processor(admin, claims_processor),
            ),
            Request::CreateProduct { now, admin, params } => after(
                self,
                self.create_product(now, admin, params),
            ),
            Request::PauseProduct { admin, product_id } => after(
                self,
                self.pause_product(admin, product_id),
            ),
            Request::DeprecateProduct { admin, product_id } => after(
                self,
                self.deprecate_product(admin, product_id),
            ),
            Request::BuyPolicy {
                now,
                buyer,
                product_id,
                coverage_amount,
                duration_days,
                oracle_key,
            } => after(
                self,
                self.buy_policy(
                    now,
                    buyer,
                    product_id,
                    coverage_amount,
                    duration_days,
                    oracle_key,
                ),
            ),
            Request::BatchBuyPolicy { now, buyer, items } => after(
                self,
                self.batch_buy_policy(now, buyer, items),
            ),
            Request::CancelPolicy { now, policyholder, policy_id } => after(
                self,
                self.cancel_policy(now, policyholder, policy_id),
            ),
            Request::TransferPolicy { from, to, policy_id } => after(
                self,
                self.transfer_policy(from, to, policy_id),
            ),
            Request::PayClaim { caller, policy_id, transferred } => after(
                self,
                self.pay_claim(caller, policy_id, transferred),
            ),
            Request::ExpirePolicy { caller, policy_id } => after(
                self,
                self.expire_policy(caller, policy_id),
            ),
            Request::SetPaused { admin, paused } => after(self, self.set_paused(admin, paused)),
            Request::ProposeNewAdmin { now, admin, new_admin } => after(
                self,
                self.propose_new_admin(now, admin, new_admin),
            ),
            Request::AcceptAdmin { now, admin } => after(self, self.accept_admin(now, admin)),
            Request::SetMaxProductsPerPool { admin, max_products } => after(
                self,
                self.set_max_products_per_pool(admin, max_products),
            ),
            Request::SetExpiryWarningWindow { admin, window } => after(
                self,
                self.set_expiry_warning_window(admin, window),
            ),
            Request::NotifyPolicyExpiring { now, policy_id } => after(
                self,
                self.notify_policy_expiring(now, policy_id),
            ),
            Request::NotifyExpiringPolicies { now, user, offset } => {
                let ids = list_at(self.user_policies, user);
                self.warn_range(
                    now,
                    ids,
                    offset as int,
                    EngineState::sweep_end(offset, ids.len()),
                ).0
            },
            Request::Upgrade { admin, new_wasm_hash, new_version } => after(
                self,
                self.upgrade(admin, new_wasm_hash, new_version),
            ),
        }
    }

    /// Whether the numbers that a request would give out are not used up.
    pub open spec fn has_room(self, r: Request) -> bool {
        match r {
            Request::CreateProduct { .. } => self.product_counter() < u128::MAX,
            Request::BuyPolicy { .. } => self.policy_counter() < u128::MAX,
            Request::BatchBuyPolicy { items, .. } => self.policy_counter() + items.len()
                <= u128::MAX,
            _ => true,
        }
    }

    /// The state after requests made one after the other.
    pub open spec fn apply_all(self, requests: Seq<Request>) -> EngineState
        decreases requests.len(),
    {
        if requests.len() == 0 {
            self
        } else {
            self.apply_all(requests.drop_last()).apply(requests.last())
        }
    }

    /// Whether there are numbers left for all of the requests.
    pub open spec fn has_room_for_all(self, requests: Seq<Request>) -> bool
        decreases requests.len(),
    {
        requests.len() > 0 ==> self.has_room_for_all(requests.drop_last()) && self.apply_all(
            requests.drop_last(),
        ).has_room(requests.last())
    }

    /// Policies and products are filed under their own numbers, which are below
    /// the next ones to be given out.
    pub open spec fn numbered(self) -> bool {
        &&& forall|id: u128|
            #![trigger self.policies[id]]
            self.policies.contains_key(id) ==> self.policies[id].id == id && id
                < self.policy_counter()
        &&& forall|id: u128|
            #![trigger self.products[id]]
            self.products.contains_key(id) ==> self.products[id].id == id && id
                < self.product_counter()
    }

    /// A holder's list names exactly the active policies of the holder, each
    /// once.
    pub open spec fn lists_exact(self) -> bool {
        &&& forall|user: Addr| #[trigger] list_at(self.user_policies, user).no_duplicates()
        &&& forall|user: Addr, id: u128|
            #[trigger] list_at(self.user_policies, user).contains(id) <==> self.holds(user, id)
    }

    /// Whether a policy is active and someone's.
    pub open spec fn holds(self, user: Addr, id: u128) -> bool {
        self.policies.contains_key(id) && self.policies[id].status == PolicyStatus::Active
            && self.policies[id].policyholder == user
    }

    /// The list of products on sale names exactly the active products, each
    /// once.
    pub open spec fn sale_exact(self) -> bool {
        &&& self.active_products.no_duplicates()
        &&& forall|id: u128|
            #[trigger] self.active_products.contains(id) <==> self.products.contains_key(id)
                && self.products[id].status == ProductStatus::Active
    }

    /// Every product's name is on record as that product's.
    pub open spec fn names_exact(self) -> bool {
        forall|id: u128|
            #![trigger self.products[id]]
            self.products.contains_key(id) ==> self.product_names.contains_key(
                self.products[id].name,
            ) && self.product_names[self.products[id].name] == id
    }

    /// Before it is set up, the engine holds nothing.
    pub open spec fn empty_before_start(self) -> bool {
        !self.initialized ==> {
            &&& self.admin is None
            &&& self.pending_admin is None
            &&& forall|id: u128| !#[trigger] self.products.contains_key(id)
            &&& forall|id: u128| !#[trigger] self.policies.contains_key(id)
        }
    }

    /// What every request keeps.
    #[verifier::opaque]
    pub open spec fn inv(self) -> bool {
        &&& self.numbered()
        &&& self.lists_exact()
        &&& self.sale_exact()
        &&& self.names_exact()
        &&& self.empty_before_start()
    }
}

/// A new engine meets the invariant.
pub proof fn law_fresh_inv()
    ensures
        EngineState::fresh().inv(),
{
    reveal(EngineState::inv);
    let s = EngineState::fresh();
    assert forall|user: Addr, id: u128| #[trigger]
        list_at(s.user_policies, user).contains(id) <==> s.holds(user, id) by {}
    assert forall|user: Addr| #[trigger] list_at(s.user_policies, user).no_duplicates() by {}
}

proof fn lemma_buy_keeps_inv(
    s: EngineState,
    now: u64,
    buyer: Addr,
    product_id: u128,
    coverage_amount: i128,
    duration_days: u32,
    oracle_key: Sym,
)
    requires
        s.inv(),
        s.policy_counter() < u128::MAX,
    ensures
        after(
            s,
            s.buy_policy_inner(
                now,
                buyer,
                product_id,
                coverage_amount,
                duration_days,
                oracle_key,
            ),
        ).inv(),
{
    reveal(EngineState::inv);
    let outcome = s.buy_policy_inner(
        now,
        buyer,
        product_id,
        coverage_amount,
        duration_days,
        oracle_key,
    );
    if outcome is Ok {
        let t = after(s, outcome);
        let id = s.policy_counter();
        assert(!s.policies.contains_key(id)) by {
            if s.policies.contains_key(id) {
                assert(s.policies[id].id < id);
            }
        }
        assert(!s.holds(buyer, id));
        lemma_push_value(list_at(s.user_policies, buyer), id);
        assert forall|user: Addr, x: u128|
            #[trigger] list_at(t.user_policies, user).contains(x) <==> t.holds(user, x) by {
            assert(list_at(s.user_policies, user).contains(x) <==> s.holds(user, x));
            if user != buyer {
                assert(list_at(t.user_policies, user) == list_at(s.user_policies, user));
            }
        }
        assert forall|user: Addr| #[trigger] list_at(t.user_policies, user).no_duplicates() by {
            assert(list_at(s.user_policies, user).no_duplicates());
        }
    }
}

proof fn lemma_buy_items_keep_inv(
    s: EngineState,
    now: u64,
    buyer: Addr,
    items: Seq<BatchBuyItem>,
    n: nat,
)
    requires
        s.inv(),
        n <= items.len(),
        s.policy_counter() + n <= u128::MAX,
    ensures
        s.buy_items(now, buyer, items, n) matches Ok((t, _)) ==> t.inv() && t.policy_counter()
            == s.policy_counter() + n,
    decreases n,
{
    if n > 0 {
        lemma_buy_items_keep_inv(s, now, buyer, items, (n - 1) as nat);
        match s.buy_items(now, buyer, items, (n - 1) as nat) {
            Ok((t, _)) => {
                let item = items[n - 1];
                lemma_buy_keeps_inv(
                    t,
                    now,
                    buyer,
                    item.product_id,
                    item.coverage_amount,
                    item.duration_days,
                    item.oracle_key,
                );
            },
            Err(_) => {},
        }
    }
}

proof fn lemma_close_keeps_inv(s: EngineState, policy_id: u128, status: PolicyStatus)
    requires
        s.inv(),
        s.policies.contains_key(policy_id),
        s.policies[policy_id].status == PolicyStatus::Active,
        status != PolicyStatus::Active,
    ensures
        s.close_policy(policy_id, status).inv(),
{
    reveal(EngineState::inv);
    let t = s.close_policy(policy_id, status);
    let holder = s.policies[policy_id].policyholder;
    assert(s.holds(holder, policy_id));
    assert(list_at(s.user_policies, holder).contains(policy_id));
    lemma_remove_value(list_at(s.user_policies, holder), policy_id);
    assert forall|user: Addr, x: u128|
        #[trigger] list_at(t.user_policies, user).contains(x) <==> t.holds(user, x) by {
        assert(list_at(s.user_policies, user).contains(x) <==> s.holds(user, x));
        if user != holder {
            assert(list_at(t.user_policies, user) == list_at(s.user_policies, user));
        }
    }
    assert forall|user: Addr| #[trigger] list_at(t.user_policies, user).no_duplicates() by {
        assert(list_at(s.user_policies, user).no_duplicates());
    }
}

proof fn lemma_transfer_keeps_inv(s: EngineState, from: Addr, to: Addr, policy_id: u128)
    requires
        s.inv(),
    ensures
        after(s, s.transfer_policy(from, to, policy_id)).inv(),
{
    reveal(EngineState::inv);
    let outcome = s.transfer_policy(from, to, policy_id);
    let t = after(s, outcome);
    if outcome is Ok && from != to {
        let asked = s.demand(from).demand(to);
        let moved = EngineState {
            policies: s.policies.insert(
                policy_id,
                Policy { policyholder: to, ..s.policies[policy_id] },
            ),
            ..asked
        }.without_user_policy(from, policy_id);
        assert(s.holds(from, policy_id));
        assert(!s.holds(to, policy_id));
        assert(list_at(s.user_policies, from).contains(policy_id));
        lemma_remove_value(list_at(s.user_policies, from), policy_id);
        assert(list_at(moved.user_policies, to) == list_at(s.user_policies, to));
        lemma_push_value(list_at(s.user_policies, to), policy_id);
        assert forall|user: Addr, x: u128|
            #[trigger] list_at(t.user_policies, user).contains(x) <==> t.holds(user, x) by {
            assert(list_at(s.user_policies, user).contains(x) <==> s.holds(user, x));
            if user != from && user != to {
                assert(list_at(t.user_policies, user) == list_at(s.user_policies, user));
            }
        }
        assert forall|user: Addr| #[trigger] list_at(t.user_policies, user).no_duplicates() by {
            assert(list_at(s.user_policies, user).no_duplicates());
        }
    } else if outcome is Ok {
        lemma_same_records(s, t);
    }
}

/// States that differ in nothing the invariant speaks of.
proof fn lemma_same_records(s: EngineState, t: EngineState)
    requires
        s.inv(),
        t.policies == s.policies,
        t.products == s.products,
        t.user_policies == s.user_policies,
        t.active_products == s.active_products,
        t.product_names == s.product_names,
        t.policy_counter() == s.policy_counter(),
        t.product_counter() == s.product_counter(),
        t.initialized == s.initialized,
        !s.initialized ==> t.admin is None && t.pending_admin is None,
    ensures
        t.inv(),
{
    reveal(EngineState::inv);
    assert forall|user: Addr, x: u128|
        #[trigger] list_at(t.user_policies, user).contains(x) <==> t.holds(user, x) by {
        assert(list_at(s.user_policies, user).contains(x) <==> s.holds(user, x));
    }
    assert forall|user: Addr| #[trigger] list_at(t.user_policies, user).no_duplicates() by {
        assert(list_at(s.user_policies, user).no_duplicates());
    }
}

proof fn lemma_warn_range(s: EngineState, now: u64, ids: Seq<u128>, from: int, to: int)
    ensures
        ({
            let (t, n) = s.warn_range(now, ids, from, to);
            &&& EngineState { expiry_warned: s.expiry_warned, outbox: s.outbox, ..t } == s
            &&& forall|id: u128|
                s.expiry_warned.contains_key(id) ==> #[trigger] t.expiry_warned.contains_key(id)
            &&& t.outbox.len() == s.outbox.len() + n
        }),
    decreases to - from,
{
    if to > from {
        lemma_warn_range(s, now, ids, from, to - 1);
        let (t, _) = s.warn_range(now, ids, from, to - 1);
        let u = t.warn(now, ids[to - 1]);
        assert(EngineState { expiry_warned: s.expiry_warned, outbox: s.outbox, ..u } =~= s);
    } else {
        assert(EngineState { expiry_warned: s.expiry_warned, outbox: s.outbox, ..s } =~= s);
    }
}

proof fn lemma_initialize_keeps_inv(
    s: EngineState,
    admin: Addr,
    usdc_token: Addr,
    oracle_address: Addr,
    token_answers: bool,
)
    requires
        s.inv(),
    ensures
        after(s, s.initialize(admin, usdc_token, oracle_address, token_answers)).inv(),
{
    reveal(EngineState::inv);
    let t = after(s, s.initialize(admin, usdc_token, oracle_address, token_answers));
    if !s.initialized {
        assert forall|user: Addr, x: u128|
            #[trigger] list_at(t.user_policies, user).contains(x) <==> t.holds(user, x) by {
            assert(list_at(s.user_policies, user).contains(x) <==> s.holds(user, x));
        }
        assert forall|user: Addr| #[trigger] list_at(t.user_policies, user).no_duplicates() by {
            assert(list_at(s.user_policies, user).no_duplicates());
        }
    }
}

proof fn lemma_create_keeps_inv(s: EngineState, now: u64, admin: Addr, params: CreateProductParams)
    requires
        s.inv(),
        s.product_counter() < u128::MAX,
    ensures
        after(s, s.create_product(now, admin, params)).inv(),
{
    reveal(EngineState::inv);
    let t = after(s, s.create_product(now, admin, params));
    if s.create_product_error(admin, params) is None {
        let id = s.product_counter();
        assert(!s.products.contains_key(id)) by {
            if s.products.contains_key(id) {
                assert(s.products[id].id < id);
            }
        }
        assert(!s.active_products.contains(id));
        lemma_push_value(s.active_products, id);
        assert forall|user: Addr, x: u128|
            #[trigger] list_at(t.user_policies, user).contains(x) <==> t.holds(user, x) by {
            assert(list_at(s.user_policies, user).contains(x) <==> s.holds(user, x));
        }
        assert forall|user: Addr| #[trigger] list_at(t.user_policies, user).no_duplicates() by {
            assert(list_at(s.user_policies, user).no_duplicates());
        }
        assert forall|x: u128|
            #![trigger t.products[x]]
            t.products.contains_key(x) implies t.product_names.contains_key(t.products[x].name)
            && t.product_names[t.products[x].name] == x by {
            if x != id {
                assert(s.products.contains_key(x));
                assert(s.product_names.contains_key(s.products[x].name));
            }
        }
    }
}

/// Taking a product off sale.
proof fn lemma_restock(s: EngineState, t: EngineState, product_id: u128, status: ProductStatus)
    requires
        s.inv(),
        s.products.contains_key(product_id),
        status != ProductStatus::Active,
        t.products == s.products.insert(
            product_id,
            InsuranceProduct { status, ..s.products[product_id] },
        ),
        t.active_products == s.active_products.remove_value(product_id),
        t.policies == s.policies,
        t.user_policies == s.user_policies,
        t.product_names == s.product_names,
        t.policy_counter() == s.policy_counter(),
        t.product_counter() == s.product_counter(),
        t.initialized == s.initialized,
    ensures
        t.inv(),
{
    reveal(EngineState::inv);
    lemma_remove_value(s.active_products, product_id);
    assert forall|user: Addr, x: u128|
        #[trigger] list_at(t.user_policies, user).contains(x) <==> t.holds(user, x) by {
        assert(list_at(s.user_policies, user).contains(x) <==> s.holds(user, x));
    }
    assert forall|user: Addr| #[trigger] list_at(t.user_policies, user).no_duplicates() by {
        assert(list_at(s.user_policies, user).no_duplicates());
    }
    assert forall|x: u128|
        #![trigger t.products[x]]
        t.products.contains_key(x) implies t.product_names.contains_key(t.products[x].name)
        && t.product_names[t.products[x].name] == x by {
        assert(s.products.contains_key(x));
        assert(s.product_names.contains_key(s.products[x].name));
    }
    assert forall|x: u128| #[trigger] t.active_products.contains(x) <==> t.products.contains_key(x)
        && t.products[x].status == ProductStatus::Active by {
        assert(s.active_products.contains(x) <==> s.products.contains_key(x)
            && s.products[x].status == ProductStatus::Active);
    }
}


/// What the invariant says at once of the records that there are.
proof fn lemma_inv_facts(s: EngineState)
    requires
        s.inv(),
    ensures
        !s.initialized ==> s.admin is None && s.pending_admin is None,
        forall|id: u128| #[trigger] s.policies.contains_key(id) ==> id < s.policy_counter(),
{
    reveal(EngineState::inv);
    assert forall|id: u128| #[trigger] s.policies.contains_key(id) implies id
        < s.policy_counter() by {
        assert(s.policies[id].id == id);
    }
}

impl EngineState {
    /// What a request leaves in place, `t` being the state after it.
    #[verifier::opaque]
    pub open spec fn kept_by(self, r: Request, t: EngineState) -> bool {
        &&& t.inv()
        &&& forall|id: u128| #[trigger]
            self.policies.contains_key(id) ==> self.policy_kept(r, t, id)
        &&& forall|id: u128|
            #[trigger] self.expiry_warned.contains_key(id) ==> t.expiry_warned.contains_key(id)
        &&& self.initialized ==> t.product_counter() >= self.product_counter()
            && t.policy_counter() >= self.policy_counter()
        &&& self.pending_admin is Some ==> self.transfer_kept(t) || self.transfer_accepted(r, t)
    }

    /// A policy stays on record, unchanged where it was closed; only the claims
    /// processor settles one that is active.
    pub open spec fn policy_kept(self, r: Request, t: EngineState, id: u128) -> bool {
        &&& t.policies.contains_key(id)
        &&& self.policies[id].status != PolicyStatus::Active ==> t.policies[id] == self.policies[id]
        &&& self.policies[id].status == PolicyStatus::Active && (t.policies[id].status
            == PolicyStatus::Claimed || t.policies[id].status == PolicyStatus::Expired)
            ==> self.settles(r, id)
    }

    /// Whether a request is one of the claims processor to settle a policy.
    pub open spec fn settles(self, r: Request, id: u128) -> bool {
        match r {
            Request::PayClaim { caller, policy_id, transferred } => policy_id == id && transferred
                && Some(caller) == self.claims_processor,
            Request::ExpirePolicy { caller, policy_id } => policy_id == id && Some(caller)
                == self.claims_processor,
            _ => false,
        }
    }

    /// The administrator and the pending transfer are as before.
    pub open spec fn transfer_kept(self, t: EngineState) -> bool {
        t.admin == self.admin && t.pending_admin == self.pending_admin && t.pending_admin_since
            == self.pending_admin_since
    }

    /// The pending administrator took over after the timelock.
    pub open spec fn transfer_accepted(self, r: Request, t: EngineState) -> bool {
        match r {
            Request::AcceptAdmin { now, admin } => Some(admin) == self.pending_admin && now
                >= timelock_end(or_default(self.pending_admin_since, 0)) && t.admin == Some(admin),
            _ => false,
        }
    }
}

proof fn lemma_set_claims_processor(s: EngineState, r: Request)
    requires
        s.inv(),
        s.has_room(r),
        r is SetClaimsProcessor,
    ensures
        s.kept_by(r, s.apply(r)),
{
    reveal(EngineState::apply);
    reveal(EngineState::kept_by);
    let t = s.apply(r);
    lemma_inv_facts(s);
    lemma_same_records(s, t);
}

proof fn lemma_set_paused(s: EngineState, r: Request)
    requires
        s.inv(),
        s.has_room(r),
        r is SetPaused,
    ensures
        s.kept_by(r, s.apply(r)),
{
    reveal(EngineState::apply);
    reveal(EngineState::kept_by);
    let t = s.apply(r);
    lemma_inv_facts(s);
    lemma_same_records(s, t);
}

proof fn lemma_propose_new_admin(s: EngineState, r: Request)
    requires
        s.inv(),
        s.has_room(r),
        r is ProposeNewAdmin,
    ensures
        s.kept_by(r, s.apply(r)),
{
    reveal(EngineState::apply);
    reveal(EngineState::kept_by);
    let t = s.apply(r);
    lemma_inv_facts(s);
    lemma_same_records(s, t);
}

proof fn lemma_accept_admin(s: EngineState, r: Request)
    requires
        s.inv(),
        s.has_room(r),
        r is AcceptAdmin,
    ensures
        s.kept_by(r, s.apply(r)),
{
    reveal(EngineState::apply);
    reveal(EngineState::kept_by);
    let t = s.apply(r);
    lemma_inv_facts(s);
    lemma_same_records(s, t);
}

proof fn lemma_set_max_products_per_pool(s: EngineState, r: Request)
    requires
        s.inv(),
        s.has_room(r),
        r is SetMaxProductsPerPool,
    ensures
        s.kept_by(r, s.apply(r)),
{
    reveal(EngineState::apply);
    reveal(EngineState::kept_by);
    let t = s.apply(r);
    lemma_inv_facts(s);
    lemma_same_records(s, t);
}

proof fn lemma_set_expiry_warning_window(s: EngineState, r: Request)
    requires
        s.inv(),
        s.has_room(r),
        r is SetExpiryWarningWindow,
    ensures
        s.kept_by(r, s.apply(r)),
{
    reveal(EngineState::apply);
    reveal(EngineState::kept_by);
    let t = s.apply(r);
    lemma_inv_facts(s);
    lemma_same_records(s, t);
}

proof fn lemma_notify_policy_expiring(s: EngineState, r: Request)
    requires
        s.inv(),
        s.has_room(r),
        r is NotifyPolicyExpiring,
    ensures
        s.kept_by(r, s.apply(r)),
{
    reveal(EngineState::apply);
    reveal(EngineState::kept_by);
    let t = s.apply(r);
    lemma_inv_facts(s);
    lemma_same_records(s, t);
}

proof fn lemma_upgrade(s: EngineState, r: Request)
    requires
        s.inv(),
        s.has_room(r),
        r is Upgrade,
    ensures
        s.kept_by(r, s.apply(r)),
{
    reveal(EngineState::apply);
    reveal(EngineState::kept_by);
    let t = s.apply(r);
    lemma_inv_facts(s);
    lemma_same_records(s, t);
}

proof fn lemma_initialize(s: EngineState, r: Request)
    requires
        s.inv(),
        s.has_room(r),
        r is Initialize,
    ensures
        s.kept_by(r, s.apply(r)),
{
    reveal(EngineState::apply);
    reveal(EngineState::kept_by);
    let t = s.apply(r);
    lemma_inv_facts(s);
    match r {
        Request::Initialize { admin, usdc_token, oracle_address, token_answers } => {
            lemma_initialize_keeps_inv(s, admin, usdc_token, oracle_address, token_answers);
        },
        _ => {},
    }
}

proof fn lemma_create_product(s: EngineState, r: Request)
    requires
        s.inv(),
        s.has_room(r),
        r is CreateProduct,
    ensures
        s.kept_by(r, s.apply(r)),
{
    reveal(EngineState::apply);
    reveal(EngineState::kept_by);
    let t = s.apply(r);
    lemma_inv_facts(s);
    match r {
        Request::CreateProduct { now, admin, params } => {
            lemma_create_keeps_inv(s, now, admin, params);
        },
        _ => {},
    }
}

proof fn lemma_pause_product(s: EngineState, r: Request)
    requires
        s.inv(),
        s.has_room(r),
        r is PauseProduct,
    ensures
        s.kept_by(r, s.apply(r)),
{
    reveal(EngineState::apply);
    reveal(EngineState::kept_by);
    let t = s.apply(r);
    lemma_inv_facts(s);
    match r {
        Request::PauseProduct { admin, product_id } => {
            if s.pause_product(admin, product_id) is Ok {
                lemma_restock(s, t, product_id, ProductStatus::Paused);
            }
        },
        _ => {},
    }
}

proof fn lemma_deprecate_product(s: EngineState, r: Request)
    requires
        s.inv(),
        s.has_room(r),
        r is DeprecateProduct,
    ensures
        s.kept_by(r, s.apply(r)),
{
    reveal(EngineState::apply);
    reveal(EngineState::kept_by);
    let t = s.apply(r);
    lemma_inv_facts(s);
    match r {
        Request::DeprecateProduct { admin, product_id } => {
            if s.deprecate_product(admin, product_id) is Ok {
                lemma_restock(s, t, product_id, ProductStatus::Deprecated);
            }
        },
        _ => {},
    }
}

proof fn lemma_buy_policy(s: EngineState, r: Request)
    requires
        s.inv(),
        s.has_room(r),
        r is BuyPolicy,
    ensures
        s.kept_by(r, s.apply(r)),
{
    reveal(EngineState::apply);
    reveal(EngineState::kept_by);
    let t = s.apply(r);
    lemma_inv_facts(s);
    match r {
        Request::BuyPolicy {
            now,
            buyer,
            product_id,
            coverage_amount,
            duration_days,
            oracle_key,
        } => {
            let asked = s.demand(buyer);
            lemma_same_records(s, asked);
            lemma_buy_keeps_inv(
                asked,
                now,
                buyer,
                product_id,
                coverage_amount,
                duration_days,
                oracle_key,
            );
        },
        _ => {},
    }
}

proof fn lemma_buy_items_frame(
    s: EngineState,
    now: u64,
    buyer: Addr,
    items: Seq<BatchBuyItem>,
    n: nat,
)
    requires
        s.inv(),
        n <= items.len(),
        s.policy_counter() + n <= u128::MAX,
    ensures
        s.buy_items(now, buyer, items, n) matches Ok((t, _)) ==> t.product_counter()
            == s.product_counter() && t.expiry_warned == s.expiry_warned && s.transfer_kept(t) && (
        forall|id: u128| #[trigger]
            s.policies.contains_key(id) ==> t.policies.contains_key(id) && t.policies[id]
                == s.policies[id]),
    decreases n,
{
    if n > 0 {
        lemma_buy_items_frame(s, now, buyer, items, (n - 1) as nat);
        lemma_buy_items_keep_inv(s, now, buyer, items, (n - 1) as nat);
        lemma_inv_facts(s);
    }
}

proof fn lemma_batch_buy_policy(s: EngineState, r: Request)
    requires
        s.inv(),
        s.has_room(r),
        r is BatchBuyPolicy,
    ensures
        s.kept_by(r, s.apply(r)),
{
    reveal(EngineState::apply);
    reveal(EngineState::kept_by);
    let t = s.apply(r);
    lemma_inv_facts(s);
    match r {
        Request::BatchBuyPolicy { now, buyer, items } => {
            let asked = s.demand(buyer);
            lemma_same_records(s, asked);
            lemma_buy_items_keep_inv(asked, now, buyer, items, items.len());
            lemma_buy_items_frame(asked, now, buyer, items, items.len());
        },
        _ => {},
    }
}

proof fn lemma_cancel_policy(s: EngineState, r: Request)
    requires
        s.inv(),
        s.has_room(r),
        r is CancelPolicy,
    ensures
        s.kept_by(r, s.apply(r)),
{
    reveal(EngineState::apply);
    reveal(EngineState::kept_by);
    let t = s.apply(r);
    lemma_inv_facts(s);
    match r {
        Request::CancelPolicy { now, policyholder, policy_id } => {
            if s.cancel_policy(now, policyholder, policy_id) is Ok {
                let asked = s.demand(policyholder);
                lemma_same_records(s, asked);
                lemma_close_keeps_inv(asked, policy_id, PolicyStatus::Cancelled);
                lemma_same_records(asked.close_policy(policy_id, PolicyStatus::Cancelled), t);
            }
        },
        _ => {},
    }
}

proof fn lemma_pay_claim(s: EngineState, r: Request)
    requires
        s.inv(),
        s.has_room(r),
        r is PayClaim,
    ensures
        s.kept_by(r, s.apply(r)),
{
    reveal(EngineState::apply);
    reveal(EngineState::kept_by);
    let t = s.apply(r);
    lemma_inv_facts(s);
    match r {
        Request::PayClaim { caller, policy_id, transferred } => {
            if s.pay_claim(caller, policy_id, transferred) is Ok {
                let asked = s.demand(caller);
                lemma_same_records(s, asked);
                lemma_close_keeps_inv(asked, policy_id, PolicyStatus::Claimed);
                lemma_same_records(asked.close_policy(policy_id, PolicyStatus::Claimed), t);
            }
        },
        _ => {},
    }
}

proof fn lemma_expire_policy(s: EngineState, r: Request)
    requires
        s.inv(),
        s.has_room(r),
        r is ExpirePolicy,
    ensures
        s.kept_by(r, s.apply(r)),
{
    reveal(EngineState::apply);
    reveal(EngineState::kept_by);
    let t = s.apply(r);
    lemma_inv_facts(s);
    match r {
        Request::ExpirePolicy { caller, policy_id } => {
            if s.expire_policy(caller, policy_id) is Ok {
                let asked = s.demand(caller);
                lemma_same_records(s, asked);
                lemma_close_keeps_inv(asked, policy_id, PolicyStatus::Expired);
                lemma_same_records(asked.close_policy(policy_id, PolicyStatus::Expired), t);
            }
        },
        _ => {},
    }
}

proof fn lemma_transfer_policy(s: EngineState, r: Request)
    requires
        s.inv(),
        s.has_room(r),
        r is TransferPolicy,
    ensures
        s.kept_by(r, s.apply(r)),
{
    reveal(EngineState::apply);
    reveal(EngineState::kept_by);
    let t = s.apply(r);
    lemma_inv_facts(s);
    match r {
        Request::TransferPolicy { from, to, policy_id } => {
            lemma_transfer_keeps_inv(s, from, to, policy_id);
        },
        _ => {},
    }
}

proof fn lemma_notify_expiring_policies(s: EngineState, r: Request)
    requires
        s.inv(),
        s.has_room(r),
        r is NotifyExpiringPolicies,
    ensures
        s.kept_by(r, s.apply(r)),
{
    reveal(EngineState::apply);
    reveal(EngineState::kept_by);
    let t = s.apply(r);
    lemma_inv_facts(s);
    match r {
        Request::NotifyExpiringPolicies { now, user, offset } => {
            let ids = list_at(s.user_policies, user);
            lemma_warn_range(
                s,
                now,
                ids,
                offset as int,
                EngineState::sweep_end(offset, ids.len()),
            );
            lemma_same_records(s, t);
        },
        _ => {},
    }
}

proof fn lemma_kept(s: EngineState, r: Request)
    requires
        s.inv(),
        s.has_room(r),
    ensures
        s.kept_by(r, s.apply(r)),
{
    match r {
        Request::Initialize { .. } => lemma_initialize(s, r),
        Request::SetClaimsProcessor { .. } => lemma_set_claims_processor(s, r),
        Request::CreateProduct { .. } => lemma_create_product(s, r),
        Request::PauseProduct { .. } => lemma_pause_product(s, r),
        Request::DeprecateProduct { .. } => lemma_deprecate_product(s, r),
        Request::BuyPolicy { .. } => lemma_buy_policy(s, r),
        Request::BatchBuyPolicy { .. } => lemma_batch_buy_policy(s, r),
        Request::CancelPolicy { .. } => lemma_cancel_policy(s, r),
        Request::TransferPolicy { .. } => lemma_transfer_policy(s, r),
        Request::PayClaim { .. } => lemma_pay_claim(s, r),
        Request::ExpirePolicy { .. } => lemma_expire_policy(s, r),
        Request::SetPaused { .. } => lemma_set_paused(s, r),
        Request::ProposeNewAdmin { .. } => lemma_propose_new_admin(s, r),
        Request::AcceptAdmin { .. } => lemma_accept_admin(s, r),
        Request::SetMaxProductsPerPool { .. } => lemma_set_max_products_per_pool(s, r),
        Request::SetExpiryWarningWindow { .. } => lemma_set_expiry_warning_window(s, r),
        Request::NotifyPolicyExpiring { .. } => lemma_notify_policy_expiring(s, r),
        Request::NotifyExpiringPolicies { .. } => lemma_notify_expiring_policies(s, r),
        Request::Upgrade { .. } => lemma_upgrade(s, r),
    }
}

/// No request breaks the invariant: policies and products keep their own
/// numbers, a holder's list names exactly the holder's active policies, the
/// list of products on sale names exactly the active products, and no two
/// products bear the same name.
pub proof fn law_requests_keep_inv(s: EngineState, r: Request)
    requires
        s.inv(),
        s.has_room(r),
    ensures
        s.apply(r).inv(),
{
    lemma_kept(s, r);
    reveal(EngineState::kept_by);
}

/// Whatever requests a new engine gets, the invariant holds.
pub proof fn law_inv_always(requests: Seq<Request>)
    requires
        EngineState::fresh().has_room_for_all(requests),
    ensures
        EngineState::fresh().apply_all(requests).inv(),
    decreases requests.len(),
{
    if requests.len() == 0 {
        law_fresh_inv();
    } else {
        law_inv_always(requests.drop_last());
        law_requests_keep_inv(
            EngineState::fresh().apply_all(requests.drop_last()),
            requests.last(),
        );
    }
}

/// A policy that was claimed, expired or cancelled never changes again, and
/// no policy ever disappears.
pub proof fn law_closed_policy_is_final(s: EngineState, r: Request, id: u128)
    requires
        s.inv(),
        s.has_room(r),
        s.policies.contains_key(id),
    ensures
        s.apply(r).policies.contains_key(id),
        s.policies[id].status != PolicyStatus::Active ==> s.apply(r).policies[id] == s.policies[id],
{
    lemma_kept(s, r);
    reveal(EngineState::kept_by);
}

/// A policy is paid out at most once: after a payout, whatever is asked of the
/// engine in between, another payout is refused as already claimed.
pub proof fn law_paid_once(
    s: EngineState,
    caller: Addr,
    id: u128,
    requests: Seq<Request>,
    later_caller: Addr,
    transferred: bool,
)
    requires
        s.inv(),
        s.pay_claim(caller, id, true) is Ok,
        after(s, s.pay_claim(caller, id, true)).has_room_for_all(requests),
    ensures
        ({
            let t = after(s, s.pay_claim(caller, id, true)).apply_all(requests);
            &&& t.inv()
            &&& t.policies.contains_key(id)
            &&& t.policies[id].status == PolicyStatus::Claimed
            &&& t.processor_error(later_caller) is None ==> t.pay_claim(
                later_caller,
                id,
                transferred,
            ) == Err::<(EngineState, ()), Error>(Error::AlreadyClaimed)
        }),
    decreases requests.len(),
{
    let paid = after(s, s.pay_claim(caller, id, true));
    if requests.len() == 0 {
        let r = Request::PayClaim { caller, policy_id: id, transferred: true };
        assert(s.apply(r) == paid) by {
            reveal(EngineState::apply);
        }
        law_requests_keep_inv(s, r);
    } else {
        law_paid_once(s, caller, id, requests.drop_last(), later_caller, transferred);
        let u = paid.apply_all(requests.drop_last());
        law_requests_keep_inv(u, requests.last());
        law_closed_policy_is_final(u, requests.last(), id);
    }
}

/// Only the claims processor moves a policy to Claimed or Expired.
pub proof fn law_only_the_processor_settles(s: EngineState, r: Request, id: u128)
    requires
        s.inv(),
        s.has_room(r),
        s.policies.contains_key(id),
        s.policies[id].status == PolicyStatus::Active,
        s.apply(r).policies[id].status == PolicyStatus::Claimed
            || s.apply(r).policies[id].status == PolicyStatus::Expired,
    ensures
        s.settles(r, id),
{
    lemma_kept(s, r);
    reveal(EngineState::kept_by);
}

/// Numbers are given out upward, to products and to policies: no request lowers
/// the next one.
pub proof fn law_numbers_grow(s: EngineState, r: Request)
    requires
        s.inv(),
        s.has_room(r),
        s.initialized,
    ensures
        s.apply(r).product_counter() >= s.product_counter(),
        s.apply(r).policy_counter() >= s.policy_counter(),
{
    lemma_kept(s, r);
    reveal(EngineState::kept_by);
}

/// A new product or policy has a number that none had before.
pub proof fn law_numbers_are_new(
    s: EngineState,
    now: u64,
    admin: Addr,
    p: CreateProductParams,
    buyer: Addr,
    product_id: u128,
    coverage_amount: i128,
    duration_days: u32,
    oracle_key: Sym,
)
    requires
        s.inv(),
    ensures
        s.create_product(now, admin, p) matches Ok((_, id)) ==> !s.products.contains_key(id),
        s.buy_policy(now, buyer, product_id, coverage_amount, duration_days, oracle_key) matches Ok(
            (_, id),
        ) ==> !s.policies.contains_key(id),
{
    reveal(EngineState::inv);
    let id = s.product_counter();
    if s.products.contains_key(id) {
        assert(s.products[id].id < id);
    }
    let id = s.policy_counter();
    if s.policies.contains_key(id) {
        assert(s.policies[id].id < id);
    }
}

/// A warning is emitted at most once per policy: once it is out, it is refused
/// after whatever else is asked of the engine.
pub proof fn law_warned_once(
    s: EngineState,
    now: u64,
    id: u128,
    requests: Seq<Request>,
    later: u64,
)
    requires
        s.inv(),
        s.notify_policy_expiring(now, id) is Ok,
        after(s, s.notify_policy_expiring(now, id)).has_room_for_all(requests),
    ensures
        ({
            let t = after(s, s.notify_policy_expiring(now, id)).apply_all(requests);
            &&& t.inv()
            &&& t.expiry_warned.contains_key(id)
            &&& t.notify_policy_expiring(later, id) is Err
            &&& !t.warning_due(later, id)
        }),
    decreases requests.len(),
{
    let warned = after(s, s.notify_policy_expiring(now, id));
    if requests.len() == 0 {
        let r = Request::NotifyPolicyExpiring { now, policy_id: id };
        assert(s.apply(r) == warned) by {
            reveal(EngineState::apply);
        }
        law_requests_keep_inv(s, r);
    } else {
        law_warned_once(s, now, id, requests.drop_last(), later);
        let u = warned.apply_all(requests.drop_last());
        lemma_kept(u, requests.last());
        reveal(EngineState::kept_by);
    }
}

/// A pending admin transfer stays as it is, timelock included, until it is
/// accepted after the timelock: nothing restarts it.
pub proof fn law_timelock_cannot_be_restarted(s: EngineState, r: Request)
    requires
        s.inv(),
        s.has_room(r),
        s.pending_admin is Some,
    ensures
        s.transfer_kept(s.apply(r)) || s.transfer_accepted(r, s.apply(r)),
{
    lemma_kept(s, r);
    reveal(EngineState::kept_by);
}

/// No two products bear the same name.
pub proof fn law_names_are_unique(s: EngineState, a: u128, b: u128)
    requires
        s.inv(),
        s.products.contains_key(a),
        s.products.contains_key(b),
        s.products[a].name == s.products[b].name,
    ensures
        a == b,
{
    reveal(EngineState::inv);
}

/// While a product holds a (category, oracle key) pair, no other can be
/// created with it; deprecating the product frees the pair.
pub proof fn law_product_keys(
    s: EngineState,
    now: u64,
    admin: Addr,
    p: CreateProductParams,
    product_id: u128,
)
    ensures
        s.product_keys.contains_key((p.category, p.oracle_key)) ==> s.create_product(
            now,
            admin,
            p,
        ) is Err,
        s.create_product(now, admin, p) is Ok ==> after(
            s,
            s.create_product(now, admin, p),
        ).product_keys.contains_key((p.category, p.oracle_key)),
        s.deprecate_product(admin, product_id) is Ok ==> !after(
            s,
            s.deprecate_product(admin, product_id),
        ).product_keys.contains_key(
            (s.products[product_id].category, s.products[product_id].oracle_key),
        ),
{
}

/// In emergency pause no policy is sold and none changes hands.
pub proof fn law_pause_halts_sales(s: EngineState, r: Request)
    requires
        s.paused,
        r is BuyPolicy || r is BatchBuyPolicy || r is TransferPolicy,
    ensures
        s.apply(r) == s,
{
    reveal(EngineState::apply);
}

/// A year's premium is the coverage times the rate; the premium of a positive
/// coverage is not negative, and grows with coverage, rate and duration.
pub proof fn law_premium(coverage: int, bps: int, days: int, coverage2: int, bps2: int, days2: int)
    requires
        0 <= coverage <= coverage2,
        0 <= bps <= bps2,
        0 <= days <= days2,
    ensures
        premium_of(coverage, bps, 365) == coverage * bps / 10_000,
        0 <= premium_of(coverage, bps, days) <= premium_of(coverage2, bps2, days2),
{
    assert(0 <= coverage * bps) by (nonlinear_arith)
        requires
            0 <= coverage,
            0 <= bps,
    ;
    let y = coverage * bps;
    assert(y * 365 / 365 == y) by (nonlinear_arith);
    assert(coverage * bps * days <= coverage2 * bps2 * days2) by (nonlinear_arith)
        requires
            0 <= coverage <= coverage2,
            0 <= bps <= bps2,
            0 <= days <= days2,
    ;
    assert(0 <= coverage * bps * days) by (nonlinear_arith)
        requires
            0 <= y,
            y == coverage * bps,
            0 <= days,
    ;
}

/// What a cancelled policy pays back lies between nothing and the premium: the
/// whole premium up to the start, nothing from the end on, and never more later
/// than earlier.
pub proof fn law_refund(p: Policy, now: u64, later: u64)
    requires
        p.premium_paid >= 0,
        p.start_time < p.end_time,
        now <= later,
    ensures
        0 <= refund_of(p, now) <= p.premium_paid,
        now <= p.start_time ==> refund_of(p, now) == p.premium_paid,
        now >= p.end_time ==> refund_of(p, now) == 0,
        refund_of(p, later) <= refund_of(p, now),
{
    let total = p.end_time - p.start_time;
    let paid = p.premium_paid as int;
    let e1 = least(if now >= p.start_time { now - p.start_time } else { 0 }, total);
    let e2 = least(if later >= p.start_time { later - p.start_time } else { 0 }, total);
    assert(0 <= paid * e1 <= paid * e2 <= paid * total) by (nonlinear_arith)
        requires
            0 <= paid,
            0 <= e1 <= e2 <= total,
    ;
    assert(paid * total / total == paid) by (nonlinear_arith)
        requires
            total > 0,
    ;
    let a = paid * e1;
    let b = paid * e2;
    let c = paid * total;
    assert(0 <= a / total <= b / total <= c / total) by (nonlinear_arith)
        requires
            0 <= a <= b <= c,
            total > 0,
    ;
    if e1 == 0 {
        assert(paid * e1 == 0) by (nonlinear_arith)
            requires
                e1 == 0,
        ;
        assert(0int / total == 0) by (nonlinear_arith)
            requires
                total > 0,
        ;
    }
}

/// A policy that was bought on valid terms can always be cancelled while it is
/// active, as far as arithmetic is concerned.
pub proof fn law_refund_computable(p: Policy, now: u64)
    requires
        0 <= p.premium_paid <= 1_000_000_000_000_000,
    ensures
        !refund_overflows(p, now),
{
    let total = p.end_time - p.start_time;
    let elapsed = if now >= p.start_time {
        now - p.start_time
    } else {
        0
    };
    let paid = p.premium_paid as int;
    let e = least(elapsed, total);
    if p.end_time > p.start_time {
        assert(0 <= paid * e <= 1_000_000_000_000_000 * 0xFFFF_FFFF_FFFF_FFFF) by (nonlinear_arith)
            requires
                0 <= paid <= 1_000_000_000_000_000,
                0 <= e <= 0xFFFF_FFFF_FFFF_FFFF,
        ;
    }
}

/// The administrator that a request claims to come from.
pub open spec fn admin_of(r: Request) -> Option<Addr> {
    match r {
        Request::SetClaimsProcessor { admin, .. } => Some(admin),
        Request::CreateProduct { admin, .. } => Some(admin),
        Request::PauseProduct { admin, .. } => Some(admin),
        Request::DeprecateProduct { admin, .. } => Some(admin),
        Request::SetPaused { admin, .. } => Some(admin),
        Request::ProposeNewAdmin { admin, .. } => Some(admin),
        Request::SetMaxProductsPerPool { admin, .. } => Some(admin),
        Request::SetExpiryWarningWindow { admin, .. } => Some(admin),
        Request::Upgrade { admin, .. } => Some(admin),
        _ => None,
    }
}

/// An administrative request has an effect only where it comes from the stored
/// administrator, whose authorisation is demanded.
pub proof fn law_admin_only(s: EngineState, r: Request)
    requires
        admin_of(r) is Some,
        s.apply(r) != s,
    ensures
        s.admin == admin_of(r),
        s.apply(r).outbox.len() > s.outbox.len(),
        s.apply(r).outbox[s.outbox.len() as int] == Effect::RequireAuth(admin_of(r)->0),
{
    reveal(EngineState::apply);
}

/// An administrative request of anyone but the stored administrator is refused,
/// and changes nothing: before the engine is set up because there is no
/// administrator, after that because the caller is not the one.
pub proof fn law_admin_check(s: EngineState, r: Request)
    requires
        admin_of(r) is Some,
        s.admin != admin_of(r),
    ensures
        s.admin_error(admin_of(r)->0) == Some(
            if s.admin is None {
                Error::NotInitialized
            } else {
                Error::Unauthorized
            },
        ),
        s.apply(r) == s,
        r matches Request::SetClaimsProcessor { admin, claims_processor }
            ==> s.set_claims_processor(admin, claims_processor) == Err::<(EngineState, ()), Error>(
            s.admin_error(admin)->0,
        ),
        r matches Request::CreateProduct { now, admin, params } ==> s.create_product(
            now,
            admin,
            params,
        ) == Err::<(EngineState, u128), Error>(s.admin_error(admin)->0),
        r matches Request::PauseProduct { admin, product_id } ==> s.pause_product(admin, product_id)
            == Err::<(EngineState, ()), Error>(s.admin_error(admin)->0),
        r matches Request::DeprecateProduct { admin, product_id } ==> s.deprecate_product(
            admin,
            product_id,
        ) == Err::<(EngineState, ()), Error>(s.admin_error(admin)->0),
        r matches Request::SetPaused { admin, paused } ==> s.set_paused(admin, paused) == Err::<
            (EngineState, ()),
            Error,
        >(s.admin_error(admin)->0),
        r matches Request::ProposeNewAdmin { now, admin, new_admin } ==> s.propose_new_admin(
            now,
            admin,
            new_admin,
        ) == Err::<(EngineState, ()), Error>(s.admin_error(admin)->0),
        r matches Request::SetMaxProductsPerPool { admin, max_products }
            ==> s.set_max_products_per_pool(admin, max_products) == Err::<(EngineState, ()), Error>(
            s.admin_error(admin)->0,
        ),
        r matches Request::SetExpiryWarningWindow { admin, window }
            ==> s.set_expiry_warning_window(admin, window) == Err::<(EngineState, ()), Error>(
            s.admin_error(admin)->0,
        ),
        r matches Request::Upgrade { admin, new_wasm_hash, new_version } ==> s.upgrade(
            admin,
            new_wasm_hash,
            new_version,
        ) == Err::<(EngineState, ()), Error>(s.admin_error(admin)->0),
{
    reveal(EngineState::apply);
}

/// Whether nothing is paid between two states.
spec fn pays_nothing(s: EngineState, t: EngineState) -> bool {
    forall|i: int| s.outbox.len() <= i < t.outbox.len() ==> !(#[trigger] t.outbox[i] is Pay)
}

proof fn lemma_buy_items_pay_nothing(
    s: EngineState,
    now: u64,
    buyer: Addr,
    items: Seq<BatchBuyItem>,
    n: nat,
)
    ensures
        s.buy_items(now, buyer, items, n) matches Ok((t, _)) ==> s.outbox.is_prefix_of(t.outbox)
            && pays_nothing(s, t),
    decreases n,
{
    if n > 0 {
        lemma_buy_items_pay_nothing(s, now, buyer, items, (n - 1) as nat);
    }
}

proof fn lemma_warnings_pay_nothing(s: EngineState, now: u64, ids: Seq<u128>, from: int, to: int)
    ensures
        ({
            let t = s.warn_range(now, ids, from, to).0;
            t.outbox.len() >= s.outbox.len() && pays_nothing(s, t)
        }),
    decreases to - from,
{
    if to > from {
        lemma_warnings_pay_nothing(s, now, ids, from, to - 1);
    }
}

proof fn lemma_setup_pay_nothing(s: EngineState, r: Request)
    requires
        r is Initialize || r is SetClaimsProcessor || r is CreateProduct,
    ensures
        pays_nothing(s, s.apply(r)),
{
    reveal(EngineState::apply);
}

proof fn lemma_sales_pay_nothing(s: EngineState, r: Request)
    requires
        r is PauseProduct || r is DeprecateProduct || r is BuyPolicy,
    ensures
        pays_nothing(s, s.apply(r)),
{
    reveal(EngineState::apply);
}

proof fn lemma_holders_pay_nothing(s: EngineState, r: Request)
    requires
        r is TransferPolicy || r is PayClaim || r is ExpirePolicy,
    ensures
        pays_nothing(s, s.apply(r)),
{
    reveal(EngineState::apply);
}

proof fn lemma_admin_pay_nothing(s: EngineState, r: Request)
    requires
        r is SetPaused || r is ProposeNewAdmin || r is AcceptAdmin || r is SetMaxProductsPerPool,
    ensures
        pays_nothing(s, s.apply(r)),
{
    reveal(EngineState::apply);
}

proof fn lemma_notices_pay_nothing(s: EngineState, r: Request)
    requires
        r is SetExpiryWarningWindow || r is NotifyPolicyExpiring || r is Upgrade,
    ensures
        pays_nothing(s, s.apply(r)),
{
    reveal(EngineState::apply);
}

proof fn lemma_batches_pay_nothing(s: EngineState, r: Request)
    requires
        r is BatchBuyPolicy || r is NotifyExpiringPolicies,
    ensures
        pays_nothing(s, s.apply(r)),
{
    reveal(EngineState::apply);
    match r {
        Request::BatchBuyPolicy { now, buyer, items } => {
            let asked = s.demand(buyer);
            lemma_buy_items_pay_nothing(asked, now, buyer, items, items.len());
            assert(asked.outbox[s.outbox.len() as int] is RequireAuth);
        },
        Request::NotifyExpiringPolicies { now, user, offset } => {
            let ids = list_at(s.user_policies, user);
            lemma_warnings_pay_nothing(
                s,
                now,
                ids,
                offset as int,
                EngineState::sweep_end(offset, ids.len()),
            );
        },
        _ => {},
    }
}

/// Apart from the payout of a claim, which the claims processor alone can ask
/// for, the engine pays only refunds: to the holder of an active policy who
/// cancels it, and exactly the refund.
pub proof fn law_only_refunds_are_paid(s: EngineState, r: Request, i: int)
    requires
        s.outbox.len() <= i < s.apply(r).outbox.len(),
        s.apply(r).outbox[i] is Pay,
    ensures
        r matches Request::CancelPolicy { now, policyholder, policy_id } && s.holds(
            policyholder,
            policy_id,
        ) && s.apply(r).outbox[i] == (Effect::Pay {
            token: s.usdc_token->0,
            to: policyholder,
            amount: refund_of(s.policies[policy_id], now) as i128,
        }),
{
    match r {
        Request::Initialize { .. } => lemma_setup_pay_nothing(s, r),
        Request::SetClaimsProcessor { .. } => lemma_setup_pay_nothing(s, r),
        Request::CreateProduct { .. } => lemma_setup_pay_nothing(s, r),
        Request::PauseProduct { .. } => lemma_sales_pay_nothing(s, r),
        Request::DeprecateProduct { .. } => lemma_sales_pay_nothing(s, r),
        Request::BuyPolicy { .. } => lemma_sales_pay_nothing(s, r),
        Request::TransferPolicy { .. } => lemma_holders_pay_nothing(s, r),
        Request::PayClaim { .. } => lemma_holders_pay_nothing(s, r),
        Request::ExpirePolicy { .. } => lemma_holders_pay_nothing(s, r),
        Request::SetPaused { .. } => lemma_admin_pay_nothing(s, r),
        Request::ProposeNewAdmin { .. } => lemma_admin_pay_nothing(s, r),
        Request::AcceptAdmin { .. } => lemma_admin_pay_nothing(s, r),
        Request::SetMaxProductsPerPool { .. } => lemma_admin_pay_nothing(s, r),
        Request::SetExpiryWarningWindow { .. } => lemma_notices_pay_nothing(s, r),
        Request::NotifyPolicyExpiring { .. } => lemma_notices_pay_nothing(s, r),
        Request::Upgrade { .. } => lemma_notices_pay_nothing(s, r),
        Request::BatchBuyPolicy { .. } => lemma_batches_pay_nothing(s, r),
        Request::NotifyExpiringPolicies { .. } => lemma_batches_pay_nothing(s, r),
        Request::CancelPolicy { .. } => {
            reveal(EngineState::apply);
        },
    }
}

} // verus!
