//! What the engine's answers amount to: premiums, refunds, payouts, dates, and
//! who gets what on which terms.

use crate::outcome::after;
use crate::policy_engine::state::{
    EngineState, active_among, coverage_sum, is_category_text, is_letter, is_oracle_key,
    premium_sum,
};
use crate::policy_engine::types::{
    AdminUpdated, BatchBuyItem, ClaimsProcessorUpdated, ContractUpgraded, CreateProductParams,
    Effect, Error, Event, ExpiryState, ExpiryWarningWindowUpdated, Initialized, InsuranceProduct,
    Policy, PolicyCancelled, PolicyExpired, PolicyExpiringSoon, PolicyStatus, PolicyTransferred,
    ProductCreated, ProductPaused, ProductStatus,
};
use crate::sums::{lemma_sum_by_last, sum_by};
use crate::table::{lemma_remove_value, list_at};
use crate::text::{Addr, Sym};
use vstd::prelude::*;

verus! {

/// Dividing by 365 and then by 10000 is dividing by both at once.
proof fn lemma_premium(x: int, q: int)
    requires
        x >= 0,
        q == x / 365 / 10_000,
    ensures
        q * 3_650_000 <= x < (q + 1) * 3_650_000,
        q >= 0,
{
    let y = x / 365;
    assert(y * 365 <= x < (y + 1) * 365) by (nonlinear_arith)
        requires
            y == x / 365,
    ;
    assert(q * 10_000 <= y < (q + 1) * 10_000) by (nonlinear_arith)
        requires
            q == y / 10_000,
    ;
}

/// A purchase succeeds on an active product, while sales are open, for a
/// coverage and a number of days within the product's bounds, a coverage of at
/// most 10^12, and an end that can be told. The premium is what the yearly rate
/// in basis points makes for the days, rounded down; it is collected from the
/// buyer, who gets a policy on the product's trigger that runs for the days from
/// now on.
pub proof fn law_terms_of_a_purchase(
    s: EngineState,
    now: u64,
    buyer: Addr,
    product_id: u128,
    coverage: i128,
    days: u32,
    oracle_key: Sym,
)
    requires
        s.products.contains_key(product_id) ==> s.products[product_id].coverage_min >= 0,
        s.policy_counter() < u128::MAX,
    ensures
        ({
            let outcome = s.buy_policy(now, buyer, product_id, coverage, days, oracle_key);
            let product = s.products[product_id];
            &&& outcome is Ok <==> {
                &&& !s.paused
                &&& s.usdc_token is Some
                &&& s.products.contains_key(product_id)
                &&& product.status == ProductStatus::Active
                &&& product.coverage_min <= coverage <= product.coverage_max
                &&& coverage <= 1_000_000_000_000
                &&& 1 <= days <= product.max_duration_days
                &&& now + days * 86_400 <= 0xFFFF_FFFF_FFFF_FFFF
            }
            &&& outcome matches Ok((t, id)) ==> {
                let p = t.policies[id];
                let x = coverage * product.premium_rate_bps * days;
                &&& p.premium_paid * 3_650_000 <= x < (p.premium_paid + 1) * 3_650_000
                &&& p.id == id && p.product_id == product_id && p.policyholder == buyer
                &&& p.coverage_amount == coverage && p.oracle_key == oracle_key
                &&& p.oracle_data_type == product.oracle_data_type
                &&& p.trigger_threshold == product.trigger_threshold
                &&& p.trigger_comparison == product.trigger_comparison
                &&& p.start_time == now && p.created_at == now
                &&& p.end_time == now + days * 86_400
                &&& p.status == PolicyStatus::Active
                &&& s.next_policy_id == Some(id) || s.next_policy_id is None && id == 1
                &&& t =~= (EngineState {
                    policies: s.policies.insert(id, p),
                    user_policies: s.user_policies.insert(
                        buyer,
                        list_at(s.user_policies, buyer).push(id),
                    ),
                    next_policy_id: Some((id + 1) as u128),
                    outbox: s.outbox + seq![
                        Effect::RequireAuth(buyer),
                        Effect::Collect {
                            token: s.usdc_token->0,
                            from: buyer,
                            amount: p.premium_paid,
                        },
                        Effect::Emit(
                            Event::PolicyBought {
                                buyer,
                                policy_id: id,
                                product_id,
                                coverage_amount: coverage,
                                premium: p.premium_paid,
                            },
                        ),
                    ],
                    ..s
                })
            }
        }),
{
    let product = s.products[product_id];
    let c = coverage as int;
    let b = product.premium_rate_bps as int;
    let d = days as int;
    if 0 <= c <= 1_000_000_000_000 {
        assert(0 <= c * b <= 1_000_000_000_000 * 0xFFFF_FFFF) by (nonlinear_arith)
            requires
                0 <= c <= 1_000_000_000_000,
                0 <= b <= 0xFFFF_FFFF,
        ;
        let y = c * b;
        assert(0 <= y * d <= 1_000_000_000_000 * 0xFFFF_FFFF * 0xFFFF_FFFF) by (nonlinear_arith)
            requires
                0 <= y <= 1_000_000_000_000 * 0xFFFF_FFFF,
                0 <= d <= 0xFFFF_FFFF,
        ;
        let x = c * b * d;
        lemma_premium(x, x / 365 / 10_000);
    }
}

/// A policy can be cancelled by its holder while it is active. What is kept of
/// the premium is in proportion to the time that has gone by, rounded down; the
/// rest is paid back, and the policy is closed. The one thing in the way is a
/// premium so large that premium times seconds is out of range.
pub proof fn law_refund_in_proportion(s: EngineState, now: u64, holder: Addr, id: u128)
    requires
        s.policies.contains_key(id),
        s.usdc_token is Some,
        0 <= s.policies[id].premium_paid,
        s.policies[id].start_time < s.policies[id].end_time,
    ensures
        ({
            let p = s.policies[id];
            let outcome = s.cancel_policy(now, holder, id);
            let total = p.end_time - p.start_time;
            let gone = if now <= p.start_time {
                0
            } else if now <= p.end_time {
                now - p.start_time
            } else {
                total
            };
            &&& outcome is Ok <==> p.policyholder == holder && p.status == PolicyStatus::Active
                && p.premium_paid * gone <= i128::MAX
            &&& outcome matches Ok((t, refund)) ==> {
                let kept = p.premium_paid - refund;
                &&& p.start_time <= now <= p.end_time ==> kept * total <= p.premium_paid * (now
                    - p.start_time) < (kept + 1) * total
                &&& now <= p.start_time ==> refund == p.premium_paid
                &&& now >= p.end_time ==> refund == 0
                &&& t =~= (EngineState {
                    policies: s.policies.insert(
                        id,
                        Policy { status: PolicyStatus::Cancelled, ..p },
                    ),
                    user_policies: t.user_policies,
                    outbox: s.outbox + (if refund > 0 {
                        seq![
                            Effect::RequireAuth(holder),
                            Effect::Pay { token: s.usdc_token->0, to: holder, amount: refund },
                        ]
                    } else {
                        seq![Effect::RequireAuth(holder)]
                    }) + seq![
                        Effect::Emit(
                            Event::PolicyCancelled(
                                PolicyCancelled {
                                    policy_id: id,
                                    policyholder: holder,
                                    refund_amount: refund,
                                },
                            ),
                        ),
                    ],
                    ..s
                })
            }
        }),
{
    let p = s.policies[id];
    let paid = p.premium_paid as int;
    let total = p.end_time - p.start_time;
    let elapsed = if now >= p.start_time {
        now - p.start_time
    } else {
        0
    };
    let e = if elapsed <= total {
        elapsed
    } else {
        total
    };
    let x = paid * e;
    assert(0 <= x <= paid * total) by (nonlinear_arith)
        requires
            0 <= paid,
            0 <= e <= total,
            x == paid * e,
    ;
    assert((x / total) * total <= x < (x / total + 1) * total && 0 <= x / total <= paid)
        by (nonlinear_arith)
        requires
            total > 0,
            0 <= x <= paid * total,
    ;
    assert(e == total ==> x / total == paid) by (nonlinear_arith)
        requires
            total > 0,
            x == paid * e,
    ;
    assert(e == 0 ==> x / total == 0) by (nonlinear_arith)
        requires
            total > 0,
            x == paid * e,
    ;
}

/// A product is made by the administrator, of a rate of 1 to 10000 basis points,
/// a positive threshold of at most 10^21, a coverage range that starts above
/// zero and is not empty, 1 to 3650 days, an oracle key that is well formed and
/// free in its category, one of the five categories with room for it, and a name
/// that is free. It is then on sale, exactly as described.
pub proof fn law_terms_of_a_product(
    s: EngineState,
    now: u64,
    admin: Addr,
    p: CreateProductParams,
)
    requires
        s.product_counter() < u128::MAX,
    ensures
        ({
            let outcome = s.create_product(now, admin, p);
            let room = match s.max_products_per_pool {
                Some(n) => n as int,
                None => 100,
            };
            &&& outcome is Ok <==> {
                &&& s.admin == Some(admin)
                &&& 1 <= p.premium_rate_bps <= 10_000
                &&& 0 < p.trigger_threshold <= 1_000_000_000_000_000_000_000
                &&& 0 < p.coverage_min < p.coverage_max
                &&& 1 <= p.max_duration_days <= 3650
                &&& is_oracle_key(p.oracle_key@)
                &&& is_category_text(p.category@)
                &&& !s.product_keys.contains_key((p.category, p.oracle_key))
                &&& !s.product_names.contains_key(p.name)
                &&& s.pool_product_count.contains_key(p.category) ==> s.pool_product_count[p.category]
                    < room
                &&& !s.pool_product_count.contains_key(p.category) ==> 0 < room
            }
            &&& outcome matches Ok((t, id)) ==> {
                let pool = if s.pool_product_count.contains_key(p.category) {
                    s.pool_product_count[p.category] as int
                } else {
                    0
                };
                &&& s.next_product_id == Some(id) || s.next_product_id is None && id == 1
                &&& t =~= (EngineState {
                    products: s.products.insert(
                        id,
                        InsuranceProduct {
                            id,
                            name: p.name,
                            category: p.category,
                            oracle_key: p.oracle_key,
                            trigger_type: p.trigger_type,
                            oracle_data_type: p.oracle_data_type,
                            trigger_threshold: p.trigger_threshold,
                            trigger_comparison: p.trigger_comparison,
                            coverage_min: p.coverage_min,
                            coverage_max: p.coverage_max,
                            premium_rate_bps: p.premium_rate_bps,
                            max_duration_days: p.max_duration_days,
                            status: ProductStatus::Active,
                            created_at: now,
                        },
                    ),
                    active_products: s.active_products.push(id),
                    product_keys: s.product_keys.insert((p.category, p.oracle_key), id),
                    product_names: s.product_names.insert(p.name, id),
                    pool_product_count: s.pool_product_count.insert(p.category, (pool + 1) as u32),
                    next_product_id: Some((id + 1) as u128),
                    outbox: s.outbox + seq![
                        Effect::RequireAuth(admin),
                        Effect::Emit(
                            Event::ProductCreated(
                                ProductCreated {
                                    product_id: id,
                                    name: p.name,
                                    category: p.category,
                                    premium_rate_bps: p.premium_rate_bps,
                                },
                            ),
                        ),
                    ],
                    ..s
                })
            }
        }),
{
}

/// An oracle key has 3 to 32 characters, all of them letters, digits or
/// underscores; it neither starts nor ends with an underscore, has no two of
/// them in a row, and has a letter. Each of these is needed, and together they
/// are enough.
pub proof fn law_oracle_keys(text: Seq<u8>, i: int)
    ensures
        is_oracle_key(text) ==> {
            &&& 3 <= text.len() <= 32
            &&& text[0] != 0x5F && text[text.len() - 1] != 0x5F
            &&& 0 <= i < text.len() ==> {
                ||| 0x61 <= text[i] <= 0x7A
                ||| 0x41 <= text[i] <= 0x5A
                ||| 0x30 <= text[i] <= 0x39
                ||| text[i] == 0x5F
            }
            &&& 0 <= i < text.len() - 1 ==> !(text[i] == 0x5F && text[i + 1] == 0x5F)
            &&& !(forall|k: int|
                0 <= k < text.len() ==> (#[trigger] text[k]) == 0x5F || 0x30 <= text[k] <= 0x39)
        },
        3 <= text.len() <= 32 && (forall|k: int|
            0 <= k < text.len() ==> 0x61 <= (#[trigger] text[k]) <= 0x7A || 0x41 <= text[k] <= 0x5A
                || 0x30 <= text[k] <= 0x39 || (text[k] == 0x5F && 0 < k < text.len() - 1
                && text[k - 1] != 0x5F)) && (exists|k: int|
            0 <= k < text.len() && (0x61 <= (#[trigger] text[k]) <= 0x7A || 0x41 <= text[k]
                <= 0x5A)) ==> is_oracle_key(text),
{
    if 3 <= text.len() <= 32 && (forall|k: int|
        0 <= k < text.len() ==> 0x61 <= (#[trigger] text[k]) <= 0x7A || 0x41 <= text[k] <= 0x5A
            || 0x30 <= text[k] <= 0x39 || (text[k] == 0x5F && 0 < k < text.len() - 1 && text[k - 1]
            != 0x5F)) {
        assert(text[0] != 0x5F && text[text.len() - 1] != 0x5F);
        assert forall|a: int, b: int|
            0 <= a < text.len() && b == a + 1 && b < text.len() implies !(#[trigger] text[a] == 95
            && #[trigger] text[b] == 95) by {
            if text[b] == 95 {
                assert(text[b - 1] != 0x5F);
            }
        }
        if exists|k: int|
            0 <= k < text.len() && (0x61 <= (#[trigger] text[k]) <= 0x7A || 0x41 <= text[k]
                <= 0x5A) {
            let k = choose|k: int|
                0 <= k < text.len() && (0x61 <= (#[trigger] text[k]) <= 0x7A || 0x41 <= text[k]
                    <= 0x5A);
            assert(is_letter(text[k]));
        }
    }
    if is_oracle_key(text) {
        let k = choose|k: int|
            0 <= k < text.len() && is_letter(#[trigger] text[k]);
        assert(!(text[k] == 0x5F || 0x30 <= text[k] <= 0x39));
        if 0 <= i < text.len() - 1 {
            let j = i + 1;
            assert(!(text[i] == 95 && text[j] == 95));
        }
    }
}

/// A policy that changes hands is the same policy with another holder. Both must
/// agree, the policy must be active and the giver's, and the taker's address
/// well formed.
pub proof fn law_transfer(s: EngineState, from: Addr, to: Addr, id: u128)
    requires
        s.policies.contains_key(id),
    ensures
        ({
            let p = s.policies[id];
            let outcome = s.transfer_policy(from, to, id);
            &&& outcome is Ok <==> !s.paused && to@.len() == 56 && (to@[0] == 71 || to@[0] == 67)
                && p.policyholder == from && p.status == PolicyStatus::Active
            &&& outcome matches Ok((t, _)) ==> {
                &&& t.policies.dom() =~= s.policies.dom()
                &&& t.policies[id] == (Policy { policyholder: to, ..p })
                &&& forall|x: u128|
                    x != id && s.policies.contains_key(x) ==> #[trigger] t.policies[x]
                        == s.policies[x]
                &&& t =~= (EngineState {
                    policies: t.policies,
                    user_policies: t.user_policies,
                    outbox: s.outbox + seq![Effect::RequireAuth(from), Effect::RequireAuth(to)] + (
                    if from == to {
                        seq![]
                    } else {
                        seq![
                            Effect::Emit(
                                Event::PolicyTransferred(
                                    PolicyTransferred { policy_id: id, from, to },
                                ),
                            ),
                        ]
                    }),
                    ..s
                })
                &&& from != to ==> list_at(t.user_policies, to) == list_at(
                    s.user_policies,
                    to,
                ).push(id)
            }
        }),
{
}

/// The claims processor, and nobody else, has a policy paid out or expired, and
/// only an active one. Where the money cannot be moved nothing happens.
pub proof fn law_settlement(s: EngineState, caller: Addr, id: u128, transferred: bool)
    requires
        s.policies.contains_key(id),
        s.usdc_token is Some,
    ensures
        ({
            let p = s.policies[id];
            let paid = s.pay_claim(caller, id, transferred);
            let expired = s.expire_policy(caller, id);
            let may = s.claims_processor == Some(caller) && p.status == PolicyStatus::Active;
            &&& paid is Ok <==> may && transferred
            &&& expired is Ok <==> may
            &&& may && !transferred ==> paid == Err::<(EngineState, ()), Error>(
                Error::InsufficientPool,
            )
            &&& paid matches Ok((t, _)) ==> t =~= (EngineState {
                policies: s.policies.insert(id, Policy { status: PolicyStatus::Claimed, ..p }),
                user_policies: t.user_policies,
                outbox: s.outbox + seq![
                    Effect::RequireAuth(caller),
                    Effect::Emit(
                        Event::ClaimPaid {
                            policy_id: id,
                            policyholder: p.policyholder,
                            coverage_amount: p.coverage_amount,
                        },
                    ),
                ],
                ..s
            })
            &&& expired matches Ok((t, _)) ==> t =~= (EngineState {
                policies: s.policies.insert(id, Policy { status: PolicyStatus::Expired, ..p }),
                user_policies: t.user_policies,
                outbox: s.outbox + seq![
                    Effect::RequireAuth(caller),
                    Effect::Emit(Event::PolicyExpired(PolicyExpired { policy_id: id })),
                ],
                ..s
            })
            &&& s.claims_processor == Some(caller) && p.status == PolicyStatus::Claimed ==> paid
                == Err::<(EngineState, ()), Error>(Error::AlreadyClaimed)
            &&& s.claims_processor == Some(caller) && p.status == PolicyStatus::Expired ==> paid
                == Err::<(EngineState, ()), Error>(Error::AlreadyExpired)
        }),
{
}

/// An active policy counts as expiring soon where its end lies ahead, but no
/// further than the warning window (seven days by default), and as lapsed from
/// its end on. A warning goes out in that time, once.
pub proof fn law_expiry(s: EngineState, now: u64, id: u128)
    requires
        s.policies.contains_key(id),
    ensures
        ({
            let p = s.policies[id];
            let info = s.expiry_info(now, id);
            let window = match s.expiry_warning_window {
                Some(w) => w as int,
                None => 604_800,
            };
            let active = p.status == PolicyStatus::Active;
            &&& info.policy_id == id && info.end_time == p.end_time
            &&& info.state == ExpiryState::NotActive <==> !active
            &&& info.state == ExpiryState::Lapsed <==> active && p.end_time <= now
            &&& info.state == ExpiryState::ExpiringSoon <==> active && now < p.end_time <= now
                + window
            &&& info.state == ExpiryState::Active <==> active && p.end_time > now + window
            &&& now < p.end_time ==> info.seconds_remaining == p.end_time - now
            &&& now >= p.end_time ==> info.seconds_remaining == 0
            &&& info.warned == s.expiry_warned.contains_key(id)
            &&& s.notify_policy_expiring(now, id) is Ok <==> active && now < p.end_time <= now
                + window && !s.expiry_warned.contains_key(id)
            &&& s.notify_policy_expiring(now, id) matches Ok((t, _)) ==> t =~= (EngineState {
                expiry_warned: s.expiry_warned.insert(id, true),
                outbox: s.outbox + seq![
                    Effect::Emit(
                        Event::PolicyExpiringSoon(
                            PolicyExpiringSoon {
                                policy_id: id,
                                policyholder: p.policyholder,
                                product_id: p.product_id,
                                coverage_amount: p.coverage_amount,
                                end_time: p.end_time,
                                seconds_remaining: (p.end_time - now) as u64,
                            },
                        ),
                    ),
                ],
                ..s
            })
        }),
{
}

/// A sweep for expiring policies looks at no more than fifty of them from its
/// start on, and leaves none of these that a warning is owed for; it warns of no
/// others, and tells how many warnings it sent.
pub proof fn law_sweep(s: EngineState, now: u64, ids: Seq<u128>, offset: u32, i: int, id: u128)
    ensures
        ({
            let end = EngineState::sweep_end(offset, ids.len());
            let (t, n) = s.warn_range(now, ids, offset as int, end);
            &&& end <= ids.len() && end <= offset + 50 && (end == ids.len() || end == offset + 50)
            &&& t.outbox.len() == s.outbox.len() + n
            &&& offset <= i < end ==> !t.warning_due(now, ids[i])
            &&& t =~= (EngineState {
                expiry_warned: t.expiry_warned,
                outbox: t.outbox,
                ..s
            })
            &&& s.expiry_warned.contains_key(id) ==> t.expiry_warned.contains_key(id)
            &&& t.expiry_warned.contains_key(id) && !s.expiry_warned.contains_key(id)
                ==> s.notify_policy_expiring(now, id) is Ok && ids.contains(id)
        }),
{
    lemma_sweep(s, now, ids, offset as int, EngineState::sweep_end(offset, ids.len()), i, id);
}

proof fn lemma_sweep(
    s: EngineState,
    now: u64,
    ids: Seq<u128>,
    from: int,
    to: int,
    i: int,
    id: u128,
)
    requires
        0 <= from,
        to <= ids.len(),
    ensures
        ({
            let (t, n) = s.warn_range(now, ids, from, to);
            &&& t.outbox.len() == s.outbox.len() + n
            &&& from <= i < to ==> !t.warning_due(now, ids[i])
            &&& t =~= (EngineState {
                expiry_warned: t.expiry_warned,
                outbox: t.outbox,
                ..s
            })
            &&& s.expiry_warned.contains_key(id) ==> t.expiry_warned.contains_key(id)
            &&& t.expiry_warned.contains_key(id) && !s.expiry_warned.contains_key(id)
                ==> s.warning_due(now, id) && ids.contains(id)
        }),
    decreases to - from,
{
    if to > from {
        lemma_sweep(s, now, ids, from, to - 1, i, id);
        lemma_sweep(s, now, ids, from, to - 1, i, ids[to - 1]);
    }
}

/// A page holds the holder's policies from its offset on, in order, as many as
/// the limit allows or as there are.
pub proof fn law_pages(s: EngineState, user: Addr, offset: int, limit: int, i: int)
    requires
        offset >= 0,
        limit >= 0,
    ensures
        ({
            let all = list_at(s.user_policies, user);
            let page = s.user_page(user, offset, limit);
            &&& offset >= all.len() ==> page.len() == 0
            &&& offset < all.len() && limit <= all.len() - offset ==> page.len() == limit
            &&& offset < all.len() && limit >= all.len() - offset ==> page.len() == all.len()
                - offset
            &&& 0 <= i < page.len() ==> page[i] == all[offset + i]
        }),
{
}

/// The policies of a product among the first `n` are unchanged by what lies
/// beyond them.
proof fn lemma_policies_of_same(s: EngineState, t: EngineState, product_id: u128, n: nat)
    requires
        n <= u128::MAX,
        forall|id: u128|
            id < n ==> (t.policies.contains_key(id) <==> #[trigger] s.policies.contains_key(id)),
        forall|id: u128|
            id < n && s.policies.contains_key(id) ==> #[trigger] t.policies[id] == s.policies[id],
    ensures
        t.policies_of(product_id, n) == s.policies_of(product_id, n),
    decreases n,
{
    if n > 1 {
        lemma_policies_of_same(s, t, product_id, (n - 1) as nat);
        let id = (n - 1) as u128;
        assert(t.policies.contains_key(id) <==> s.policies.contains_key(id));
        if s.policies.contains_key(id) {
            assert(t.policies[id] == s.policies[id]);
        }
    }
}

/// A sale adds one to the policies of its product, one to those that are active,
/// its coverage and its premium to the sums, as far as these can be told; other
/// products' figures stay.
pub proof fn law_figures_follow_sales(
    s: EngineState,
    now: u64,
    buyer: Addr,
    product_id: u128,
    coverage: i128,
    days: u32,
    oracle_key: Sym,
    other: u128,
)
    requires
        s.inv(),
        1 <= s.policy_counter() < u128::MAX,
        s.policies_of(product_id, s.policy_counter() as nat).len() < u32::MAX,
        s.buy_policy(now, buyer, product_id, coverage, days, oracle_key) is Ok,
        other != product_id,
    ensures
        ({
            let (t, id) = s.buy_policy(now, buyer, product_id, coverage, days, oracle_key)->Ok_0;
            let before = s.stats_of(product_id);
            let figures = t.stats_of(product_id);
            let premium = t.policies[id].premium_paid;
            &&& figures.product_id == product_id
            &&& figures.total_policies == before.total_policies + 1
            &&& figures.active_policies == before.active_policies + 1
            &&& i128::MIN <= before.total_coverage + coverage <= i128::MAX
                ==> figures.total_coverage == before.total_coverage + coverage
            &&& i128::MIN <= before.total_premium_collected + premium <= i128::MAX
                ==> figures.total_premium_collected == before.total_premium_collected + premium
            &&& t.stats_of(other) == s.stats_of(other)
        }),
{
    reveal(EngineState::inv);
    let (t, id) = s.buy_policy(now, buyer, product_id, coverage, days, oracle_key)->Ok_0;
    let n = s.policy_counter();
    assert(id == n);
    assert(!s.policies.contains_key(n)) by {
        if s.policies.contains_key(n) {
            assert(s.policies[n].id < n);
        }
    }
    lemma_policies_of_same(s, t, product_id, n as nat);
    lemma_policies_of_same(s, t, other, n as nat);
    let earlier = s.policies_of(product_id, n as nat);
    let sold = t.policies_of(product_id, (n + 1) as nat);
    assert(sold == earlier.push(t.policies[id]));
    assert(sold.drop_last() =~= earlier);
    assert(t.policies_of(other, (n + 1) as nat) == t.policies_of(other, n as nat));
    lemma_active_bound(earlier);
    lemma_sums_fit(earlier);
}

proof fn lemma_active_bound(policies: Seq<Policy>)
    ensures
        active_among(policies) <= policies.len(),
    decreases policies.len(),
{
    if policies.len() > 0 {
        lemma_active_bound(policies.drop_last());
    }
}

proof fn lemma_sums_fit(policies: Seq<Policy>)
    ensures
        i128::MIN <= coverage_sum(policies) <= i128::MAX,
        i128::MIN <= premium_sum(policies) <= i128::MAX,
    decreases policies.len(),
{
}

/// Where no sum on the way is too large, the figures of a product are the counts
/// and sums over its policies.
pub proof fn law_figures(policies: Seq<Policy>)
    requires
        forall|k: int|
            0 <= k <= policies.len() ==> -0x7000_0000_0000_0000_0000_0000_0000_0000 <= sum_by(
                #[trigger] policies.take(k),
                |p: Policy| p.coverage_amount as int,
            ) <= 0x7000_0000_0000_0000_0000_0000_0000_0000,
        forall|k: int|
            0 <= k <= policies.len() ==> -0x7000_0000_0000_0000_0000_0000_0000_0000 <= sum_by(
                #[trigger] policies.take(k),
                |p: Policy| p.premium_paid as int,
            ) <= 0x7000_0000_0000_0000_0000_0000_0000_0000,
    ensures
        active_among(policies) == sum_by(
            policies,
            |p: Policy|
                if p.status == PolicyStatus::Active {
                    1int
                } else {
                    0
                },
        ),
        coverage_sum(policies) == sum_by(policies, |p: Policy| p.coverage_amount as int),
        premium_sum(policies) == sum_by(policies, |p: Policy| p.premium_paid as int),
    decreases policies.len(),
{
    let coverage = |p: Policy| p.coverage_amount as int;
    let premium = |p: Policy| p.premium_paid as int;
    if policies.len() > 0 {
        let rest = policies.drop_last();
        assert forall|k: int| 0 <= k <= rest.len() implies #[trigger] rest.take(k)
            == policies.take(k) by {
            assert(rest.take(k) =~= policies.take(k));
        }
        assert forall|k: int|
            0 <= k <= rest.len() implies -0x7000_0000_0000_0000_0000_0000_0000_0000 <= sum_by(
            #[trigger] rest.take(k),
            coverage,
        ) <= 0x7000_0000_0000_0000_0000_0000_0000_0000 by {
            assert(rest.take(k) == policies.take(k));
        }
        assert forall|k: int|
            0 <= k <= rest.len() implies -0x7000_0000_0000_0000_0000_0000_0000_0000 <= sum_by(
            #[trigger] rest.take(k),
            premium,
        ) <= 0x7000_0000_0000_0000_0000_0000_0000_0000 by {
            assert(rest.take(k) == policies.take(k));
        }
        law_figures(rest);
        lemma_sum_by_last(policies, coverage);
        lemma_sum_by_last(policies, premium);
        lemma_sum_by_last(
            policies,
            |p: Policy|
                if p.status == PolicyStatus::Active {
                    1int
                } else {
                    0
                },
        );
        assert(policies.take(policies.len() as int) =~= policies);
    }
}

/// Closing a policy, whichever way, takes one off the active ones of its product
/// and changes no other figure.
pub proof fn law_figures_follow_cancellations(s: EngineState, now: u64, holder: Addr, id: u128)
    requires
        s.inv(),
        1 <= id,
        s.cancel_policy(now, holder, id) is Ok,
        s.products.contains_key(s.policies[id].product_id),
        s.policies_of(s.policies[id].product_id, s.policy_counter() as nat).len() <= u32::MAX,
    ensures
        ({
            let t = after(s, s.cancel_policy(now, holder, id));
            let product_id = s.policies[id].product_id;
            let before = s.stats_of(product_id);
            let figures = t.stats_of(product_id);
            &&& figures.total_policies == before.total_policies
            &&& figures.active_policies == before.active_policies - 1
            &&& figures.total_coverage == before.total_coverage
            &&& figures.total_premium_collected == before.total_premium_collected
        }),
{
    reveal(EngineState::inv);
    let t = after(s, s.cancel_policy(now, holder, id));
    let product_id = s.policies[id].product_id;
    assert(s.policies[id].id == id);
    lemma_closed_figures(s, t, id, product_id, s.policy_counter() as nat);
    lemma_active_bound(s.policies_of(product_id, s.policy_counter() as nat));
}

proof fn lemma_closed_figures(s: EngineState, t: EngineState, id: u128, product_id: u128, n: nat)
    requires
        n <= u128::MAX,
        s.policies.contains_key(id),
        1 <= id,
        s.policies[id].status == PolicyStatus::Active,
        s.policies[id].product_id == product_id,
        t.policies == s.policies.insert(
            id,
            Policy { status: PolicyStatus::Cancelled, ..s.policies[id] },
        ),
    ensures
        ({
            let a = s.policies_of(product_id, n);
            let b = t.policies_of(product_id, n);
            &&& a.len() == b.len()
            &&& coverage_sum(a) == coverage_sum(b)
            &&& premium_sum(a) == premium_sum(b)
            &&& active_among(a) == active_among(b) + if id < n {
                1int
            } else {
                0
            }
        }),
    decreases n,
{
    if n > 1 {
        lemma_closed_figures(s, t, id, product_id, (n - 1) as nat);
        let x = (n - 1) as u128;
        let a = s.policies_of(product_id, (n - 1) as nat);
        let b = t.policies_of(product_id, (n - 1) as nat);
        if s.policies.contains_key(x) && s.policies[x].product_id == product_id {
            assert(a.push(s.policies[x]).drop_last() =~= a);
            assert(b.push(t.policies[x]).drop_last() =~= b);
        }
    }
}

/// A new administrator takes over 48 hours after being proposed, and not before;
/// nobody else does.
pub proof fn law_admin_transfer(
    s: EngineState,
    now: u64,
    admin: Addr,
    new_admin: Addr,
    later: u64,
    who: Addr,
)
    requires
        s.propose_new_admin(now, admin, new_admin) is Ok,
    ensures
        ({
            let t = after(s, s.propose_new_admin(now, admin, new_admin));
            let outcome = t.accept_admin(later, who);
            &&& s.admin == Some(admin) && s.pending_admin is None
            &&& t.admin == s.admin
            &&& now + 172_800 <= u64::MAX ==> (outcome is Ok <==> who == new_admin && later >= now
                + 172_800)
            &&& t =~= (EngineState {
                pending_admin: Some(new_admin),
                pending_admin_since: Some(now),
                outbox: s.outbox + seq![Effect::RequireAuth(admin)],
                ..s
            })
            &&& outcome matches Ok((u, _)) ==> u =~= (EngineState {
                admin: Some(new_admin),
                pending_admin: None,
                pending_admin_since: None,
                outbox: t.outbox + seq![
                    Effect::RequireAuth(new_admin),
                    Effect::Emit(Event::AdminUpdated(AdminUpdated { new_admin })),
                ],
                ..t
            })
        }),
{
}

/// The engine's layout moves only forward, and no further than the third.
pub proof fn law_upgrades_move_forward(
    s: EngineState,
    admin: Addr,
    new_wasm_hash: [u8; 32],
    new_version: u32,
)
    requires
        s.admin == Some(admin),
    ensures
        ({
            let outcome = s.upgrade(admin, new_wasm_hash, new_version);
            let old = match s.version {
                Some(v) => v,
                None => 1,
            };
            &&& outcome is Ok <==> 1 <= old < new_version <= 3
            &&& outcome matches Ok((t, _)) ==> t =~= (EngineState {
                version: Some(new_version),
                max_products_per_pool: if old == 1 && s.max_products_per_pool is None {
                    Some(100u32)
                } else {
                    s.max_products_per_pool
                },
                outbox: s.outbox + seq![
                    Effect::RequireAuth(admin),
                    Effect::ReplaceCode(new_wasm_hash),
                    Effect::Emit(
                        Event::ContractUpgraded(
                            ContractUpgraded { old_version: old, new_version },
                        ),
                    ),
                ],
                ..s
            })
        }),
{
}

/// The engine is set up once, by an account or a contract, with a token and an
/// oracle that are contracts, and a token that answers.
pub proof fn law_setup(
    s: EngineState,
    admin: Addr,
    usdc_token: Addr,
    oracle: Addr,
    token_answers: bool,
)
    ensures
        ({
            let outcome = s.initialize(admin, usdc_token, oracle, token_answers);
            &&& outcome is Ok <==> {
                &&& !s.initialized
                &&& admin@.len() == 56 && (admin@[0] == 71 || admin@[0] == 67)
                &&& usdc_token@.len() == 56 && usdc_token@[0] == 67
                &&& oracle@.len() == 56 && oracle@[0] == 67
                &&& token_answers
            }
            &&& outcome matches Ok((t, _)) ==> t =~= (EngineState {
                initialized: true,
                admin: Some(admin),
                usdc_token: Some(usdc_token),
                oracle_address: Some(oracle),
                next_product_id: Some(1),
                next_policy_id: Some(1),
                active_products: seq![],
                max_products_per_pool: Some(100),
                pending_admin: None,
                outbox: s.outbox + seq![
                    Effect::RequireAuth(admin),
                    Effect::Emit(
                        Event::Initialized(
                            Initialized { admin, usdc_token, oracle_address: oracle },
                        ),
                    ),
                ],
                ..s
            })
        }),
{
}

/// A new engine is open and empty, of the first layout, with room for a hundred
/// products in a category and a warning window of seven days. What is set takes
/// the place of these.
pub proof fn law_defaults(s: EngineState, category: Sym)
    ensures
        ({
            let n = EngineState::fresh();
            &&& !n.initialized && !n.paused && n.admin is None && n.pending_admin is None
            &&& n.usdc_token is None && n.oracle_address is None && n.claims_processor is None
            &&& n.products =~= Map::empty() && n.policies =~= Map::empty()
            &&& n.user_policies =~= Map::empty() && n.active_products.len() == 0
            &&& n.product_keys =~= Map::empty() && n.product_names =~= Map::empty()
            &&& n.pool_product_count =~= Map::empty() && n.expiry_warned =~= Map::empty()
            &&& n.outbox.len() == 0
            &&& n.max_products() == 100 && n.warning_window() == 604_800 && n.stored_version() == 1
            &&& n.policy_counter() == 1 && n.product_counter() == 1
        }),
        s.max_products_per_pool is Some ==> s.max_products() == s.max_products_per_pool->0,
        s.expiry_warning_window is Some ==> s.warning_window() == s.expiry_warning_window->0,
        s.version is Some ==> s.stored_version() == s.version->0,
        s.next_policy_id is Some ==> s.policy_counter() == s.next_policy_id->0,
        s.next_product_id is Some ==> s.product_counter() == s.next_product_id->0,
        s.pool_product_count.contains_key(category) ==> s.pool_count(category)
            == s.pool_product_count[category],
        !s.pool_product_count.contains_key(category) ==> s.pool_count(category) == 0,
{
}

/// A product can be paused and withdrawn for good by the administrator, unless
/// it was withdrawn before. Either way it goes off the list of products on sale;
/// one that is withdrawn also frees its oracle key and its place in its category.
pub proof fn law_products_off_sale(s: EngineState, admin: Addr, id: u128)
    requires
        s.products.contains_key(id),
        s.active_products.no_duplicates(),
    ensures
        ({
            let p = s.products[id];
            let paused = s.pause_product(admin, id);
            let withdrawn = s.deprecate_product(admin, id);
            let may = s.admin == Some(admin) && p.status != ProductStatus::Deprecated;
            &&& paused is Ok <==> may
            &&& withdrawn is Ok <==> may
            &&& paused matches Ok((t, _)) ==> (forall|x: u128|
                #[trigger] t.active_products.contains(x) <==> s.active_products.contains(x) && x
                    != id) && t =~= (EngineState {
                products: s.products.insert(
                    id,
                    InsuranceProduct { status: ProductStatus::Paused, ..p },
                ),
                active_products: t.active_products,
                outbox: s.outbox + seq![
                    Effect::RequireAuth(admin),
                    Effect::Emit(Event::ProductPaused(ProductPaused { product_id: id })),
                ],
                ..s
            })
            &&& withdrawn matches Ok((t, _)) ==> (forall|x: u128|
                #[trigger] t.active_products.contains(x) <==> s.active_products.contains(x) && x
                    != id) && t =~= (EngineState {
                products: s.products.insert(
                    id,
                    InsuranceProduct { status: ProductStatus::Deprecated, ..p },
                ),
                active_products: t.active_products,
                pool_product_count: t.pool_product_count,
                product_keys: s.product_keys.remove((p.category, p.oracle_key)),
                outbox: s.outbox + seq![Effect::RequireAuth(admin)],
                ..s
            })
            &&& withdrawn matches Ok((t, _)) ==> s.pool_product_count.contains_key(p.category)
                && s.pool_product_count[p.category] > 0 ==> t.pool_product_count
                == s.pool_product_count.insert(
                p.category,
                (s.pool_product_count[p.category] - 1) as u32,
            )
        }),
{
    lemma_remove_value(s.active_products, id);
}

/// The administrator names the claims processor, opens and closes sales, and sets
/// the room in a category and the warning window, neither of them to nothing.
pub proof fn law_settings(
    s: EngineState,
    admin: Addr,
    processor: Addr,
    paused: bool,
    room: u32,
    window: u64,
)
    ensures
        ({
            let may = s.admin == Some(admin);
            let named = s.set_claims_processor(admin, processor);
            let switched = s.set_paused(admin, paused);
            let widened = s.set_max_products_per_pool(admin, room);
            let shifted = s.set_expiry_warning_window(admin, window);
            &&& named is Ok <==> may
            &&& named matches Ok((t, _)) ==> t =~= (EngineState {
                claims_processor: Some(processor),
                outbox: s.outbox + seq![
                    Effect::RequireAuth(admin),
                    Effect::Emit(
                        Event::ClaimsProcessorUpdated(
                            ClaimsProcessorUpdated { claims_processor: processor },
                        ),
                    ),
                ],
                ..s
            })
            &&& switched is Ok <==> may
            &&& switched matches Ok((t, _)) ==> t =~= (EngineState {
                paused,
                outbox: s.outbox + seq![Effect::RequireAuth(admin)],
                ..s
            })
            &&& widened is Ok <==> may && room > 0
            &&& widened matches Ok((t, _)) ==> t =~= (EngineState {
                max_products_per_pool: Some(room),
                outbox: s.outbox + seq![
                    Effect::RequireAuth(admin),
                    Effect::Emit(Event::MaxProductsUpdated { max_products: room }),
                ],
                ..s
            })
            &&& shifted is Ok <==> may && window > 0
            &&& shifted matches Ok((t, _)) ==> t =~= (EngineState {
                expiry_warning_window: Some(window),
                outbox: s.outbox + seq![
                    Effect::RequireAuth(admin),
                    Effect::Emit(
                        Event::ExpiryWarningWindowUpdated(ExpiryWarningWindowUpdated { window }),
                    ),
                ],
                ..s
            })
        }),
{
}

/// A batch is one to twenty purchases by one buyer, who agrees once. All of them
/// are made, each as it would be made alone, or none.
pub proof fn law_batches_of_purchases(
    s: EngineState,
    now: u64,
    buyer: Addr,
    items: Seq<BatchBuyItem>,
    i: int,
)
    requires
        s.policy_counter() + items.len() <= u128::MAX,
        0 <= i < items.len(),
    ensures
        ({
            let outcome = s.batch_buy_policy(now, buyer, items);
            let x = items[i];
            let alone = s.buy_policy(
                now,
                buyer,
                x.product_id,
                x.coverage_amount,
                x.duration_days,
                x.oracle_key,
            );
            &&& outcome is Ok ==> items.len() <= 20 && !s.paused && alone is Ok
            &&& outcome matches Ok((t, ids)) ==> {
                &&& ids.len() == items.len()
                &&& ids[i] == s.policy_counter() + i
                &&& t.policies.contains_key(ids[i])
                &&& t.policies[ids[i]] == (Policy {
                    id: ids[i],
                    ..after(s, alone).policies[s.policy_counter()]
                })
                &&& t.policy_counter() == s.policy_counter() + items.len()
                &&& t.products == s.products
            }
        }),
{
    let asked = s.demand(buyer);
    if !s.paused && items.len() <= 20 {
        lemma_batch_item(asked, now, buyer, items, items.len(), i);
    }
}

/// A batch of one to twenty purchases that could each be made alone is made.
pub proof fn law_sound_batches_are_bought(
    s: EngineState,
    now: u64,
    buyer: Addr,
    items: Seq<BatchBuyItem>,
)
    requires
        s.policy_counter() + items.len() <= u128::MAX,
        1 <= items.len() <= 20,
        forall|i: int|
            0 <= i < items.len() ==> s.buy_policy(
                now,
                buyer,
                (#[trigger] items[i]).product_id,
                items[i].coverage_amount,
                items[i].duration_days,
                items[i].oracle_key,
            ) is Ok,
    ensures
        s.batch_buy_policy(now, buyer, items) is Ok,
{
    let asked = s.demand(buyer);
    assert forall|i: int| 0 <= i < items.len() implies asked.buy_error(
        now,
        (#[trigger] items[i]).product_id,
        items[i].coverage_amount,
        items[i].duration_days,
    ) is None by {
        assert(s.buy_policy(
            now,
            buyer,
            items[i].product_id,
            items[i].coverage_amount,
            items[i].duration_days,
            items[i].oracle_key,
        ) is Ok);
    }
    assert(s.buy_policy(
        now,
        buyer,
        items[0].product_id,
        items[0].coverage_amount,
        items[0].duration_days,
        items[0].oracle_key,
    ) is Ok);
    asked.lemma_buy_items_ok(now, buyer, items, items.len());
}

proof fn lemma_batch_item(
    s: EngineState,
    now: u64,
    buyer: Addr,
    items: Seq<BatchBuyItem>,
    n: nat,
    i: int,
)
    requires
        n <= items.len(),
        s.policy_counter() + n <= u128::MAX,
    ensures
        s.buy_items(now, buyer, items, n) matches Ok((t, ids)) ==> {
            &&& ids.len() == n
            &&& t.policy_counter() == s.policy_counter() + n
            &&& t.products == s.products && t.usdc_token == s.usdc_token
            &&& 0 <= i < n ==> {
                let x = items[i];
                &&& ids[i] == s.policy_counter() + i
                &&& s.buy_error(now, x.product_id, x.coverage_amount, x.duration_days) is None
                &&& t.policies.contains_key(ids[i])
                &&& t.policies[ids[i]] == (Policy {
                    id: ids[i],
                    ..s.new_policy(
                        now,
                        buyer,
                        x.product_id,
                        x.coverage_amount,
                        x.duration_days,
                        x.oracle_key,
                    )
                })
            }
        },
    decreases n,
{
    if n > 0 {
        lemma_batch_item(s, now, buyer, items, (n - 1) as nat, i);
    }
}

/// The categories are crop, flight, disaster, health and defi.
pub proof fn law_categories(text: Seq<u8>)
    ensures
        is_category_text(text) <==> text =~= seq![0x63u8, 0x72u8, 0x6Fu8, 0x70u8] || text =~= seq![
            0x66u8,
            0x6Cu8,
            0x69u8,
            0x67u8,
            0x68u8,
            0x74u8,
        ] || text =~= seq![0x64u8, 0x69u8, 0x73u8, 0x61u8, 0x73u8, 0x74u8, 0x65u8, 0x72u8] || text
            =~= seq![0x68u8, 0x65u8, 0x61u8, 0x6Cu8, 0x74u8, 0x68u8] || text =~= seq![
            0x64u8,
            0x65u8,
            0x66u8,
            0x69u8,
        ],
{
}

/// A refused purchase names what is wrong with it.
pub proof fn law_refused_purchases(
    s: EngineState,
    now: u64,
    buyer: Addr,
    product_id: u128,
    coverage: i128,
    days: u32,
    oracle_key: Sym,
)
    requires
        s.products.contains_key(product_id) ==> s.products[product_id].coverage_min >= 0,
    ensures
        ({
            let product = s.products[product_id];
            let known = s.products.contains_key(product_id);
            s.buy_policy(now, buyer, product_id, coverage, days, oracle_key) matches Err(e) ==> {
                ||| e == Error::Unauthorized && s.paused
                ||| e == Error::ProductNotFound && !s.paused && !known
                ||| e == Error::ProductNotActive && !s.paused && known && product.status
                    != ProductStatus::Active
                ||| e == Error::DurationTooLong && !s.paused && known && product.status
                    == ProductStatus::Active && (days == 0 || days > product.max_duration_days)
                ||| e == Error::NotInitialized && s.usdc_token is None
                ||| e == Error::CoverageOutOfRange && !s.paused && known && product.status
                    == ProductStatus::Active && (coverage < product.coverage_min || coverage
                    > product.coverage_max || coverage > 1_000_000_000_000 || now + days * 86_400
                    > u64::MAX)
            }
        }),
{
    let c = coverage as int;
    let b = s.products[product_id].premium_rate_bps as int;
    let d = days as int;
    if 0 <= c <= 1_000_000_000_000 {
        assert(0 <= c * b <= 1_000_000_000_000 * 0xFFFF_FFFF) by (nonlinear_arith)
            requires
                0 <= c <= 1_000_000_000_000,
                0 <= b <= 0xFFFF_FFFF,
        ;
        let y = c * b;
        assert(0 <= y * d <= 1_000_000_000_000 * 0xFFFF_FFFF * 0xFFFF_FFFF) by (nonlinear_arith)
            requires
                0 <= y <= 1_000_000_000_000 * 0xFFFF_FFFF,
                0 <= d <= 0xFFFF_FFFF,
        ;
    }
}

/// A refused product names what is wrong with it.
pub proof fn law_refused_products(s: EngineState, now: u64, admin: Addr, p: CreateProductParams)
    ensures
        s.create_product(now, admin, p) matches Err(e) ==> {
            ||| e == Error::NotInitialized && s.admin is None
            ||| e == Error::Unauthorized && s.admin is Some && s.admin != Some(admin)
            ||| e == Error::InvalidPremiumRate && !(1 <= p.premium_rate_bps <= 10_000)
            ||| e == Error::InvalidTriggerThreshold && !(0 < p.trigger_threshold
                <= 1_000_000_000_000_000_000_000)
            ||| e == Error::InvalidCoverageRange && !(0 < p.coverage_min < p.coverage_max)
            ||| e == Error::InvalidDurationRange && !(1 <= p.max_duration_days <= 3650)
            ||| e == Error::InvalidOracleKey && !is_oracle_key(p.oracle_key@)
            ||| e == Error::InvalidCategory && !is_category_text(p.category@)
            ||| e == Error::DuplicateProductKey && s.product_keys.contains_key(
                (p.category, p.oracle_key),
            )
            ||| e == Error::DuplicateProductName && s.product_names.contains_key(p.name)
            ||| e == Error::TooManyProducts
        },
{
}

/// A refusal to settle a policy names what is wrong.
pub proof fn law_refused_settlements(s: EngineState, caller: Addr, id: u128, transferred: bool)
    ensures
        ({
            let known = s.policies.contains_key(id);
            let status = s.policies[id].status;
            &&& s.pay_claim(caller, id, transferred) matches Err(e) ==> {
                ||| e == Error::ClaimsProcessorNotSet && s.claims_processor is None
                ||| e == Error::Unauthorized && s.claims_processor is Some && s.claims_processor
                    != Some(caller)
                ||| e == Error::PolicyNotFound && !known
                ||| e == Error::AlreadyClaimed && known && status == PolicyStatus::Claimed
                ||| e == Error::AlreadyExpired && known && status == PolicyStatus::Expired
                ||| e == Error::PolicyNotActive && known && status == PolicyStatus::Cancelled
                ||| e == Error::NotInitialized && s.usdc_token is None
                ||| e == Error::InsufficientPool && known && !transferred
            }
            &&& s.expire_policy(caller, id) matches Err(e) ==> {
                ||| e == Error::ClaimsProcessorNotSet && s.claims_processor is None
                ||| e == Error::Unauthorized && s.claims_processor is Some && s.claims_processor
                    != Some(caller)
                ||| e == Error::PolicyNotFound && !known
                ||| e == Error::AlreadyClaimed && known && status == PolicyStatus::Claimed
                ||| e == Error::AlreadyExpired && known && status == PolicyStatus::Expired
                ||| e == Error::PolicyNotActive && known && status == PolicyStatus::Cancelled
            }
        }),
{
}

/// A refusal to cancel or transfer a policy names what is wrong.
pub proof fn law_refused_changes(s: EngineState, now: u64, from: Addr, to: Addr, id: u128)
    ensures
        s.cancel_policy(now, from, id) matches Err(e) ==> {
            ||| e == Error::PolicyNotFound && !s.policies.contains_key(id)
            ||| e == Error::Unauthorized && s.policies.contains_key(id)
                && s.policies[id].policyholder != from
            ||| e == Error::PolicyNotActive && s.policies.contains_key(id) && s.policies[id].status
                != PolicyStatus::Active
            ||| e == Error::NotInitialized && s.usdc_token is None
            ||| e == Error::Overflow && s.policies[id].policyholder == from
        },
        s.transfer_policy(from, to, id) matches Err(e) ==> {
            ||| e == Error::Unauthorized && (s.paused || s.policies.contains_key(id)
                && s.policies[id].policyholder != from)
            ||| e == Error::InvalidAddress && !(to@.len() == 56 && (to@[0] == 71 || to@[0] == 67))
            ||| e == Error::PolicyNotFound && !s.policies.contains_key(id)
            ||| e == Error::PolicyNotActive && s.policies.contains_key(id) && s.policies[id].status
                != PolicyStatus::Active
        },
{
}

} // verus!
