//! The catalogue of products: who holds which key, and how many each pool has.

use crate::policy_engine::laws::Request;
use crate::policy_engine::state::EngineState;
use crate::policy_engine::types::{BatchBuyItem, ProductStatus};
use crate::table::list_at;
use crate::text::{Addr, Sym};
use vstd::prelude::*;

verus! {

impl EngineState {
    /// Whether a product exists and is not retired.
    pub open spec fn is_live(self, id: u128) -> bool {
        self.products.contains_key(id) && self.products[id].status != ProductStatus::Deprecated
    }

    pub open spec fn is_live_in(self, id: u128, category: Sym) -> bool {
        self.is_live(id) && self.products[id].category == category
    }

    /// How many products of a category numbered below `n` are not retired.
    pub open spec fn live_count(self, category: Sym, n: nat) -> nat
        decreases n,
    {
        if n == 0 {
            0
        } else {
            self.live_count(category, (n - 1) as nat) + if self.is_live_in(
                (n - 1) as u128,
                category,
            ) {
                1nat
            } else {
                0
            }
        }
    }

    /// Every product that is not retired holds its (category, oracle key) pair,
    /// and nothing else holds one.
    pub open spec fn keys_exact(self) -> bool {
        &&& forall|id: u128| #[trigger]
            self.is_live(id) ==> {
                let pair = (self.products[id].category, self.products[id].oracle_key);
                self.product_keys.contains_key(pair) && self.product_keys[pair] == id
            }
        &&& forall|pair: (Sym, Sym)| #[trigger]
            self.product_keys.contains_key(pair) ==> {
                let id = self.product_keys[pair];
                self.is_live(id) && pair == (
                    self.products[id].category,
                    self.products[id].oracle_key,
                )
            }
    }

    /// The count of every pool is the number of its products that are not
    /// retired.
    pub open spec fn pools_exact(self) -> bool {
        forall|category: Sym| #[trigger]
            self.pool_count(category) == self.live_count(
                category,
                self.product_counter() as nat,
            )
    }

    /// Whether the two states have the same catalogue.
    pub open spec fn same_catalog(self, t: EngineState) -> bool {
        &&& t.products == self.products
        &&& t.product_keys == self.product_keys
        &&& t.pool_product_count == self.pool_product_count
        &&& t.next_product_id == self.next_product_id
    }
}

/// A change at one number changes the count by at most that product.
proof fn lemma_live_changed(s: EngineState, t: EngineState, category: Sym, n: nat, id: u128)
    requires
        n <= u128::MAX,
        forall|x: u128|
            x != id ==> #[trigger] t.is_live_in(x, category) == s.is_live_in(x, category),
    ensures
        n <= id ==> t.live_count(category, n) == s.live_count(category, n),
        n > id ==> t.live_count(category, n) + (if s.is_live_in(id, category) {
            1int
        } else {
            0
        }) == s.live_count(category, n) + (if t.is_live_in(id, category) {
            1int
        } else {
            0
        }),
    decreases n,
{
    if n > 0 {
        lemma_live_changed(s, t, category, (n - 1) as nat, id);
        let x = (n - 1) as u128;
        assert(x != id ==> t.is_live_in(x, category) == s.is_live_in(x, category));
    }
}

/// A product that is not retired is counted.
proof fn lemma_live_counted(s: EngineState, category: Sym, n: nat, id: u128)
    requires
        id < n <= u128::MAX,
        s.is_live_in(id, category),
    ensures
        s.live_count(category, n) >= 1,
    decreases n,
{
    if n > id + 1 {
        lemma_live_counted(s, category, (n - 1) as nat, id);
    }
}

/// Where there are no products, none is counted.
proof fn lemma_none_live(s: EngineState, category: Sym, n: nat)
    requires
        forall|id: u128| !#[trigger] s.products.contains_key(id),
    ensures
        s.live_count(category, n) == 0,
    decreases n,
{
    if n > 0 {
        lemma_none_live(s, category, (n - 1) as nat);
    }
}

proof fn lemma_same_catalog(s: EngineState, t: EngineState)
    requires
        s.same_catalog(t),
    ensures
        s.keys_exact() ==> t.keys_exact(),
        s.pools_exact() ==> t.pools_exact(),
{
    assert forall|id: u128| t.is_live(id) == #[trigger] s.is_live(id) by {}
    if s.keys_exact() {
        assert forall|id: u128| #[trigger] t.is_live(id) implies ({
            let pair = (t.products[id].category, t.products[id].oracle_key);
            t.product_keys.contains_key(pair) && t.product_keys[pair] == id
        }) by {
            assert(s.is_live(id));
        }
    }
    if s.pools_exact() {
        assert forall|category: Sym| #[trigger]
            t.pool_count(category) == t.live_count(category, t.product_counter() as nat) by {
            assert(s.pool_count(category) == s.live_count(
                category,
                s.product_counter() as nat,
            ));
            lemma_live_changed(s, t, category, t.product_counter() as nat, 0);
        }
    }
}

proof fn lemma_buy_items_keep(
    s: EngineState,
    now: u64,
    buyer: Addr,
    items: Seq<BatchBuyItem>,
    n: nat,
)
    ensures
        s.buy_items(now, buyer, items, n) matches Ok((t, _)) ==> s.same_catalog(t),
    decreases n,
{
    if n > 0 {
        lemma_buy_items_keep(s, now, buyer, items, (n - 1) as nat);
    }
}

proof fn lemma_warnings_keep(s: EngineState, now: u64, ids: Seq<u128>, from: int, to: int)
    ensures
        s.same_catalog(s.warn_range(now, ids, from, to).0),
    decreases to - from,
{
    if to > from {
        lemma_warnings_keep(s, now, ids, from, to - 1);
    }
}

proof fn lemma_policies_keep(s: EngineState, r: Request)
    requires
        r is BuyPolicy || r is CancelPolicy || r is TransferPolicy || r is PayClaim
            || r is ExpirePolicy,
    ensures
        s.same_catalog(s.apply(r)),
{
    reveal(EngineState::apply);
}

proof fn lemma_settings_keep(s: EngineState, r: Request)
    requires
        r is SetClaimsProcessor || r is SetPaused || r is ProposeNewAdmin || r is AcceptAdmin
            || r is SetMaxProductsPerPool || r is SetExpiryWarningWindow || r is Upgrade,
    ensures
        s.same_catalog(s.apply(r)),
{
    reveal(EngineState::apply);
}

proof fn lemma_batches_keep(s: EngineState, r: Request)
    requires
        r is BatchBuyPolicy || r is NotifyPolicyExpiring || r is NotifyExpiringPolicies,
    ensures
        s.same_catalog(s.apply(r)),
{
    reveal(EngineState::apply);
    match r {
        Request::BatchBuyPolicy { now, buyer, items } => {
            lemma_buy_items_keep(s.demand(buyer), now, buyer, items, items.len());
        },
        Request::NotifyExpiringPolicies { now, user, offset } => {
            let ids = list_at(s.user_policies, user);
            lemma_warnings_keep(
                s,
                now,
                ids,
                offset as int,
                EngineState::sweep_end(offset, ids.len()),
            );
        },
        _ => {},
    }
}

proof fn lemma_initialize_catalog(s: EngineState, r: Request)
    requires
        s.inv(),
        r is Initialize,
    ensures
        s.keys_exact() ==> s.apply(r).keys_exact(),
        s.pools_exact() ==> s.apply(r).pools_exact(),
{
    reveal(EngineState::apply);
    reveal(EngineState::inv);
    let t = s.apply(r);
    if t != s {
        assert(forall|id: u128| !#[trigger] s.products.contains_key(id));
        if s.keys_exact() {
            assert forall|pair: (Sym, Sym)| !#[trigger] t.product_keys.contains_key(pair) by {
                if s.product_keys.contains_key(pair) {
                    assert(s.is_live(s.product_keys[pair]));
                }
            }
        }
        if s.pools_exact() {
            assert forall|category: Sym| #[trigger]
                t.pool_count(category) == t.live_count(category, t.product_counter() as nat) by {
                assert(s.pool_count(category) == s.live_count(
                    category,
                    s.product_counter() as nat,
                ));
                lemma_none_live(s, category, s.product_counter() as nat);
                lemma_none_live(t, category, t.product_counter() as nat);
            }
        }
    }
}

proof fn lemma_create_catalog(s: EngineState, r: Request)
    requires
        s.inv(),
        s.has_room(r),
        r is CreateProduct,
    ensures
        s.keys_exact() ==> s.apply(r).keys_exact(),
        s.pools_exact() ==> s.apply(r).pools_exact(),
{
    reveal(EngineState::apply);
    reveal(EngineState::inv);
    let t = s.apply(r);
    match r {
        Request::CreateProduct { now, admin, params } => {
            if s.create_product(now, admin, params) is Ok {
                let id = s.product_counter();
                let pair = (params.category, params.oracle_key);
                assert(!s.products.contains_key(id)) by {
                    if s.products.contains_key(id) {
                        assert(s.products[id].id < id);
                    }
                }
                assert forall|x: u128| x != id implies #[trigger] t.is_live(x) == s.is_live(x) by {}
                if s.keys_exact() {
                    assert forall|x: u128| #[trigger] t.is_live(x) implies ({
                        let p = (t.products[x].category, t.products[x].oracle_key);
                        t.product_keys.contains_key(p) && t.product_keys[p] == x
                    }) by {
                        if x != id {
                            assert(s.is_live(x));
                        }
                    }
                    assert forall|p: (Sym, Sym)| #[trigger] t.product_keys.contains_key(p) implies ({
                        let x = t.product_keys[p];
                        t.is_live(x) && p == (t.products[x].category, t.products[x].oracle_key)
                    }) by {
                        if p != pair {
                            assert(s.product_keys.contains_key(p));
                            assert(s.is_live(s.product_keys[p]));
                        } else {
                            assert(t.is_live(id));
                        }
                    }
                }
                if s.pools_exact() {
                    assert forall|category: Sym| #[trigger]
                        t.pool_count(category) == t.live_count(
                            category,
                            t.product_counter() as nat,
                        ) by {
                        assert(s.pool_count(category) == s.live_count(
                            category,
                            s.product_counter() as nat,
                        ));
                        lemma_live_changed(s, t, category, id as nat, id);
                        assert(t.product_counter() == id + 1);
                        assert(t.live_count(category, (id + 1) as nat) == t.live_count(
                            category,
                            id as nat,
                        ) + if t.is_live_in(id, category) {
                            1nat
                        } else {
                            0
                        });
                    }
                }
            }
        },
        _ => {},
    }
}

proof fn lemma_pause_catalog(s: EngineState, r: Request)
    requires
        s.inv(),
        r is PauseProduct,
    ensures
        s.keys_exact() ==> s.apply(r).keys_exact(),
        s.pools_exact() ==> s.apply(r).pools_exact(),
{
    reveal(EngineState::apply);
    reveal(EngineState::inv);
    let t = s.apply(r);
    assert forall|x: u128| #[trigger] t.is_live(x) == s.is_live(x) by {}
    if s.keys_exact() {
        assert forall|p: (Sym, Sym)| #[trigger] t.product_keys.contains_key(p) implies ({
            let x = t.product_keys[p];
            t.is_live(x) && p == (t.products[x].category, t.products[x].oracle_key)
        }) by {
            assert(s.product_keys.contains_key(p));
            assert(s.is_live(s.product_keys[p]));
        }
        assert forall|x: u128| #[trigger] t.is_live(x) implies ({
            let p = (t.products[x].category, t.products[x].oracle_key);
            t.product_keys.contains_key(p) && t.product_keys[p] == x
        }) by {
            assert(s.is_live(x));
        }
    }
    if s.pools_exact() {
        assert forall|category: Sym| #[trigger]
            t.pool_count(category) == t.live_count(category, t.product_counter() as nat) by {
            assert(s.pool_count(category) == s.live_count(
                category,
                s.product_counter() as nat,
            ));
            lemma_live_changed(s, t, category, t.product_counter() as nat, 0);
        }
    }
}

proof fn lemma_deprecate_catalog(s: EngineState, r: Request)
    requires
        s.inv(),
        r is DeprecateProduct,
    ensures
        s.keys_exact() ==> s.apply(r).keys_exact(),
        s.pools_exact() ==> s.apply(r).pools_exact(),
{
    reveal(EngineState::apply);
    reveal(EngineState::inv);
    let t = s.apply(r);
    match r {
        Request::DeprecateProduct { admin, product_id } => {
            if s.deprecate_product(admin, product_id) is Ok {
                let product = s.products[product_id];
                assert(s.is_live(product_id));
                assert forall|x: u128| x != product_id implies #[trigger] t.is_live(x) == s.is_live(
                    x,
                ) by {}
                if s.keys_exact() {
                    assert forall|x: u128| #[trigger] t.is_live(x) implies ({
                        let p = (t.products[x].category, t.products[x].oracle_key);
                        t.product_keys.contains_key(p) && t.product_keys[p] == x
                    }) by {
                        assert(x != product_id);
                        assert(s.is_live(x));
                    }
                    assert forall|p: (Sym, Sym)| #[trigger] t.product_keys.contains_key(p) implies ({
                        let x = t.product_keys[p];
                        t.is_live(x) && p == (t.products[x].category, t.products[x].oracle_key)
                    }) by {
                        assert(s.product_keys.contains_key(p));
                        assert(s.is_live(s.product_keys[p]));
                    }
                }
                if s.pools_exact() {
                    assert forall|category: Sym| #[trigger]
                        t.pool_count(category) == t.live_count(
                            category,
                            t.product_counter() as nat,
                        ) by {
                        assert(s.pool_count(category) == s.live_count(
                            category,
                            s.product_counter() as nat,
                        ));
                        lemma_live_changed(
                            s,
                            t,
                            category,
                            s.product_counter() as nat,
                            product_id,
                        );
                        if product.category == category {
                            lemma_live_counted(
                                s,
                                category,
                                s.product_counter() as nat,
                                product_id,
                            );
                        }
                    }
                }
            }
        },
        _ => {},
    }
}

/// No request makes two products on offer or on hold share a (category, oracle
/// key) pair, or the count of a pool differ from the number of its products that
/// are not retired.
pub proof fn law_requests_keep_catalog(s: EngineState, r: Request)
    requires
        s.inv(),
        s.has_room(r),
    ensures
        s.keys_exact() ==> s.apply(r).keys_exact(),
        s.pools_exact() ==> s.apply(r).pools_exact(),
{
    match r {
        Request::Initialize { .. } => lemma_initialize_catalog(s, r),
        Request::CreateProduct { .. } => lemma_create_catalog(s, r),
        Request::PauseProduct { .. } => lemma_pause_catalog(s, r),
        Request::DeprecateProduct { .. } => lemma_deprecate_catalog(s, r),
        Request::BuyPolicy { .. }
        | Request::CancelPolicy { .. }
        | Request::TransferPolicy { .. }
        | Request::PayClaim { .. }
        | Request::ExpirePolicy { .. } => {
            lemma_policies_keep(s, r);
            lemma_same_catalog(s, s.apply(r));
        },
        Request::BatchBuyPolicy { .. }
        | Request::NotifyPolicyExpiring { .. }
        | Request::NotifyExpiringPolicies { .. } => {
            lemma_batches_keep(s, r);
            lemma_same_catalog(s, s.apply(r));
        },
        _ => {
            lemma_settings_keep(s, r);
            lemma_same_catalog(s, s.apply(r));
        },
    }
}

/// Whatever requests a new engine gets, keys and pool counts stay exact.
pub proof fn law_catalog_always(requests: Seq<Request>)
    requires
        EngineState::fresh().has_room_for_all(requests),
    ensures
        EngineState::fresh().apply_all(requests).keys_exact(),
        EngineState::fresh().apply_all(requests).pools_exact(),
    decreases requests.len(),
{
    if requests.len() == 0 {
        let s = EngineState::fresh();
        assert forall|category: Sym| #[trigger]
            s.pool_count(category) == s.live_count(category, s.product_counter() as nat) by {
            lemma_none_live(s, category, s.product_counter() as nat);
        }
    } else {
        law_catalog_always(requests.drop_last());
        crate::policy_engine::laws::law_inv_always(requests.drop_last());
        law_requests_keep_catalog(
            EngineState::fresh().apply_all(requests.drop_last()),
            requests.last(),
        );
    }
}

/// A retired product stays as it is, for good.
pub proof fn law_retired_for_good(s: EngineState, r: Request, id: u128)
    requires
        s.inv(),
        s.has_room(r),
        s.products.contains_key(id),
        s.products[id].status == ProductStatus::Deprecated,
    ensures
        s.apply(r).products.contains_key(id),
        s.apply(r).products[id] == s.products[id],
{
    match r {
        Request::Initialize { .. } | Request::CreateProduct { .. } => {
            reveal(EngineState::apply);
            reveal(EngineState::inv);
            assert(s.products[id].id < s.product_counter());
        },
        Request::PauseProduct { .. } | Request::DeprecateProduct { .. } => {
            reveal(EngineState::apply);
        },
        Request::BuyPolicy { .. }
        | Request::CancelPolicy { .. }
        | Request::TransferPolicy { .. }
        | Request::PayClaim { .. }
        | Request::ExpirePolicy { .. } => lemma_policies_keep(s, r),
        Request::BatchBuyPolicy { .. }
        | Request::NotifyPolicyExpiring { .. }
        | Request::NotifyExpiringPolicies { .. } => lemma_batches_keep(s, r),
        _ => lemma_settings_keep(s, r),
    }
}

/// No two products that are not retired share a category and an oracle key.
pub proof fn law_keys_are_unique(s: EngineState, a: u128, b: u128)
    requires
        s.keys_exact(),
        s.is_live(a),
        s.is_live(b),
        s.products[a].category == s.products[b].category,
        s.products[a].oracle_key == s.products[b].oracle_key,
    ensures
        a == b,
{
}

} // verus!
