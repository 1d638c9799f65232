//! What holds of the verifier as a whole.

use crate::oracle_verifier::median::{
    Reading, is_lower_median, is_upper_median, lemma_lower_unique, lemma_upper_unique, lower_median,
    median_fits, positive_weights, total_weight, upper_median, weight_at_most, weighted_median,
};
use crate::oracle_verifier::state::{
    MAX_DATA_POINTS, MAX_ORACLES, VerifierState, age_of, distance_fits, has_slot, is_latest,
    is_slot, latest_of, newest_timestamp, other_than, upsert,
};
use crate::oracle_verifier::types::{
    Effect, Error, OracleDataPoint, OracleDataSubmission, TriggerCondition,
};
use crate::outcome::{after, answer};
use crate::table::{lemma_push_value, list_at};
use crate::text::{Addr, Sym};
use vstd::prelude::*;

verus! {

/// A request that can change the verifier. `SubmitBatch` stands for both forms
/// of a batch.
pub enum Request {
    Initialize { admin: Addr },
    AddOracle { admin: Addr, oracle: Addr, data_type: Sym, weight: u32 },
    UpdateOracleWeight { admin: Addr, oracle: Addr, data_type: Sym, weight: u32 },
    RemoveOracle { admin: Addr, oracle: Addr, data_type: Sym },
    SetMinConfidence { admin: Addr, threshold: u32 },
    SetMaxDataAge { admin: Addr, max_age: u64 },
    SetMinOracleCount { admin: Addr, min_count: u32 },
    ProposeNewAdmin { now: u64, admin: Addr, new_admin: Addr },
    AcceptAdmin { now: u64, admin: Addr },
    SubmitData { now: u64, oracle: Addr, data_type: Sym, key: Sym, value: i128, confidence: u32, timestamp: u64 },
    SubmitBatch { now: u64, oracle: Addr, data_type: Sym, subs: Seq<OracleDataSubmission>, oldest: Option<u64> },
    VerifyTriggerFresh { now: u64, data_type: Sym, key: Sym, condition: TriggerCondition, max_age_seconds: u64 },
    Upgrade { admin: Addr, new_wasm_hash: [u8; 32] },
}

impl VerifierState {
    /// The state after a request, whether it was refused or not.
    #[verifier::opaque]
    pub open spec fn apply(self, r: Request) -> VerifierState {
        match r {
            Request::Initialize { admin } => after(
                self,
                self.initialize(admin),
            ),
            Request::AddOracle { admin, oracle, data_type, weight } => after(
                self,
                self.add_oracle(admin, oracle, data_type, weight),
            ),
            Request::UpdateOracleWeight { admin, oracle, data_type, weight } => after(
                self,
                self.update_oracle_weight(admin, oracle, data_type, weight),
            ),
            Request::RemoveOracle { admin, oracle, data_type } => after(
                self,
                self.remove_oracle(admin, oracle, data_type),
            ),
            Request::SetMinConfidence { admin, threshold } => after(
                self,
                self.set_min_confidence(admin, threshold),
            ),
            Request::SetMaxDataAge { admin, max_age } => after(
                self,
                self.set_max_data_age(admin, max_age),
            ),
            Request::SetMinOracleCount { admin, min_count } => after(
                self,
                self.set_min_oracle_count(admin, min_count),
            ),
            Request::ProposeNewAdmin { now, admin, new_admin } => after(
                self,
                self.propose_new_admin(now, admin, new_admin),
            ),
            Request::AcceptAdmin { now, admin } => after(
                self,
                self.accept_admin(now, admin),
            ),
            Request::SubmitData { now, oracle, data_type, key, value, confidence, timestamp } => after(
                self,
                self.submit_data(now, oracle, data_type, key, value, confidence, timestamp),
            ),
            Request::SubmitBatch { now, oracle, data_type, subs, oldest } => after(
                self,
                self.submit_batch(now, oracle, data_type, subs, oldest),
            ),
            Request::VerifyTriggerFresh { now, data_type, key, condition, max_age_seconds } => after(
                self,
                self.verify_trigger_fresh(now, data_type, key, condition, max_age_seconds),
            ),
            Request::Upgrade { admin, new_wasm_hash } => after(
                self,
                self.upgrade(admin, new_wasm_hash),
            ),
        }
    }

    /// The state after requests made one after the other.
    pub open spec fn apply_all(self, requests: Seq<Request>) -> VerifierState
        decreases requests.len(),
    {
        if requests.len() == 0 {
            self
        } else {
            self.apply_all(requests.drop_last()).apply(requests.last())
        }
    }

    /// No oracle has two submissions for one key.
    pub open spec fn one_each(self) -> bool {
        forall|data_type: Sym, key: Sym|
            #[trigger] distinct_oracles(self.points(data_type, key))
    }

    /// No key has more submissions than may be kept.
    pub open spec fn bounded(self) -> bool {
        forall|data_type: Sym, key: Sym|
            (#[trigger] list_at(self.data_points, (data_type, key))).len() <= MAX_DATA_POINTS
    }

    /// The list of a data type names exactly its active oracles, each once, and
    /// not more than there may be.
    pub open spec fn lists_exact(self) -> bool {
        &&& forall|data_type: Sym|
            #[trigger] list_at(self.oracle_list, data_type).no_duplicates() && list_at(
                self.oracle_list,
                data_type,
            ).len() <= MAX_ORACLES
        &&& forall|data_type: Sym, oracle: Addr|
            #[trigger] list_at(self.oracle_list, data_type).contains(oracle) <==> self.is_active(
                data_type,
                oracle,
            )
    }

    /// What every request keeps.
    #[verifier::opaque]
    pub open spec fn inv(self) -> bool {
        &&& self.wf()
        &&& self.one_each()
        &&& self.bounded()
        &&& self.lists_exact()
    }
}

/// Whether the submissions of a list come from different oracles.
pub open spec fn distinct_oracles(points: Seq<OracleDataPoint>) -> bool {
    forall|i: int, j: int|
        0 <= i < points.len() && 0 <= j < points.len() && i != j ==> (#[trigger] points[i]).oracle
            != (#[trigger] points[j]).oracle
}

/// A new verifier meets the invariant.
pub proof fn law_fresh_inv()
    ensures
        VerifierState::fresh().inv(),
{
    reveal(VerifierState::inv);
    let s = VerifierState::fresh();
    assert(s.bounded());
    assert forall|data_type: Sym, oracle: Addr|
        #[trigger] list_at(s.oracle_list, data_type).contains(oracle) <==> s.is_active(
            data_type,
            oracle,
        ) by {}
    assert forall|data_type: Sym|
        #[trigger] list_at(s.oracle_list, data_type).no_duplicates() && list_at(
            s.oracle_list,
            data_type,
        ).len() <= MAX_ORACLES by {}
}

/// States that differ in nothing the invariant speaks of.
proof fn lemma_same_records(s: VerifierState, t: VerifierState)
    requires
        s.inv(),
        t.oracles == s.oracles,
        t.data_points == s.data_points,
        t.oracle_list == s.oracle_list,
    ensures
        t.inv(),
{
    reveal(VerifierState::inv);
    assert forall|data_type: Sym, key: Sym|
        #[trigger] distinct_oracles(t.points(data_type, key)) by {
        assert(distinct_oracles(s.points(data_type, key)));
    }
    assert forall|data_type: Sym, oracle: Addr|
        #[trigger] list_at(t.oracle_list, data_type).contains(oracle) <==> t.is_active(
            data_type,
            oracle,
        ) by {
        assert(list_at(s.oracle_list, data_type).contains(oracle) <==> s.is_active(
            data_type,
            oracle,
        ));
    }
}

/// A part of a list in its order has no more repetitions than the list.
proof fn lemma_filter_distinct(
    points: Seq<OracleDataPoint>,
    keep: spec_fn(OracleDataPoint) -> bool,
)
    requires
        distinct_oracles(points),
    ensures
        distinct_oracles(points.filter(keep)),
        points.filter(keep).len() <= points.len(),
        forall|p: OracleDataPoint| #[trigger] points.filter(keep).contains(p) ==> points.contains(p) && keep(p),
    decreases points.len(),
{
    reveal(Seq::filter);
    if points.len() > 0 {
        let rest = points.drop_last();
        assert forall|i: int, j: int|
            0 <= i < rest.len() && 0 <= j < rest.len() && i != j implies (#[trigger] rest[i]).oracle
            != (#[trigger] rest[j]).oracle by {
            assert(points[i].oracle != points[j].oracle);
        }
        lemma_filter_distinct(rest, keep);
        let sub = rest.filter(keep);
        let t = points.filter(keep);
        assert forall|p: OracleDataPoint| #[trigger] t.contains(p) implies points.contains(p) && keep(p) by {
            if sub.contains(p) {
                let k = choose|k: int| 0 <= k < rest.len() && rest[k] == p;
                assert(points[k] == p);
            } else {
                assert(p == points.last());
                assert(points[points.len() - 1] == p);
            }
        }
        if keep(points.last()) {
            assert forall|i: int, j: int|
                0 <= i < t.len() && 0 <= j < t.len() && i != j implies (#[trigger] t[i]).oracle != (
            #[trigger] t[j]).oracle by {
                if i == sub.len() || j == sub.len() {
                    let k = if i == sub.len() {
                        j
                    } else {
                        i
                    };
                    assert(sub.contains(sub[k]));
                    let m = choose|m: int| 0 <= m < rest.len() && rest[m] == sub[k];
                    assert(points[m].oracle != points[points.len() - 1].oracle);
                }
            }
        }
    }
}

/// Adding the submission of an oracle that has none.
proof fn lemma_push_distinct(points: Seq<OracleDataPoint>, p: OracleDataPoint)
    requires
        distinct_oracles(points),
        !has_slot(points, p.oracle),
    ensures
        distinct_oracles(points.push(p)),
{
    let t = points.push(p);
    assert forall|i: int, j: int|
        0 <= i < t.len() && 0 <= j < t.len() && i != j implies (#[trigger] t[i]).oracle != (
    #[trigger] t[j]).oracle by {
        if i < points.len() && j < points.len() {
            assert(points[i].oracle != points[j].oracle);
        } else if i < points.len() {
            assert(points[i].oracle != p.oracle);
        } else {
            assert(points[j].oracle != p.oracle);
        }
    }
}

/// The submissions for a key after a new one: one per oracle, and the new one
/// last.
proof fn lemma_submitted(
    s: VerifierState,
    now: u64,
    data_type: Sym,
    key: Sym,
    point: OracleDataPoint,
)
    requires
        distinct_oracles(s.points(data_type, key)),
        s.points(data_type, key).len() <= MAX_DATA_POINTS,
    ensures
        distinct_oracles(s.submitted(now, data_type, key, point)),
        s.submitted(now, data_type, key, point).len() <= MAX_DATA_POINTS,
        s.submitted(now, data_type, key, point).len() > 0,
        s.submitted(now, data_type, key, point).last() == point,
        !has_slot(s.submitted(now, data_type, key, point).drop_last(), point.oracle),
{
    let keep = s.survives(now, data_type, point.oracle);
    let kept = s.points(data_type, key).filter(keep);
    lemma_filter_distinct(s.points(data_type, key), keep);
    assert forall|i: int| 0 <= i < kept.len() implies (#[trigger] kept[i]).oracle
        != point.oracle by {
        assert(kept.contains(kept[i]));
    }
    let base = if kept.len() >= MAX_DATA_POINTS {
        kept.drop_first()
    } else {
        kept
    };
    assert forall|i: int, j: int|
        0 <= i < base.len() && 0 <= j < base.len() && i != j implies (#[trigger] base[i]).oracle
        != (#[trigger] base[j]).oracle by {
        if base != kept {
            assert(kept[i + 1].oracle != kept[j + 1].oracle);
        } else {
            assert(kept[i].oracle != kept[j].oracle);
        }
    }
    assert forall|i: int| 0 <= i < base.len() implies (#[trigger] base[i]).oracle
        != point.oracle by {
        if base != kept {
            assert(kept[i + 1].oracle != point.oracle);
        } else {
            assert(kept[i].oracle != point.oracle);
        }
    }
    lemma_push_distinct(base, point);
    assert(base.push(point).drop_last() =~= base);
}

/// Putting a submission in an oracle's place keeps one per oracle.
proof fn lemma_upsert(points: Seq<OracleDataPoint>, p: OracleDataPoint)
    requires
        distinct_oracles(points),
        points.len() <= MAX_DATA_POINTS,
    ensures
        distinct_oracles(upsert(points, p)),
        upsert(points, p).len() <= MAX_DATA_POINTS,
{
    if has_slot(points, p.oracle) {
        let i = choose|i: int| 0 <= i < points.len() && (#[trigger] points[i]).oracle == p.oracle;
        assert forall|j: int| 0 <= j < i implies (#[trigger] points[j]).oracle != p.oracle by {
            assert(points[j].oracle != points[i].oracle);
        }
        assert(is_slot(points, p.oracle, i));
        let k = choose|k: int| is_slot(points, p.oracle, k);
        let t = points.update(k, p);
        assert forall|a: int, b: int|
            0 <= a < t.len() && 0 <= b < t.len() && a != b implies (#[trigger] t[a]).oracle != (
        #[trigger] t[b]).oracle by {
            assert(points[a].oracle != points[b].oracle);
        }
    } else if points.len() >= MAX_DATA_POINTS {
        let rest = points.drop_first();
        assert forall|a: int, b: int|
            0 <= a < rest.len() && 0 <= b < rest.len() && a != b implies (#[trigger] rest[a]).oracle
            != (#[trigger] rest[b]).oracle by {
            assert(points[a + 1].oracle != points[b + 1].oracle);
        }
        assert(!has_slot(rest, p.oracle)) by {
            if has_slot(rest, p.oracle) {
                let a = choose|a: int| 0 <= a < rest.len() && (#[trigger] rest[a]).oracle == p.oracle;
                assert(points[a + 1].oracle == p.oracle);
            }
        }
        lemma_push_distinct(rest, p);
    } else {
        lemma_push_distinct(points, p);
    }
}

proof fn lemma_store_keeps_inv(
    s: VerifierState,
    oracle: Addr,
    data_type: Sym,
    sub: OracleDataSubmission,
)
    requires
        s.inv(),
    ensures
        s.store_reading(oracle, data_type, sub).inv(),
{
    reveal(VerifierState::inv);
    let t = s.store_reading(oracle, data_type, sub);
    let point = OracleDataPoint {
        oracle,
        value: sub.value,
        confidence: sub.confidence,
        timestamp: sub.timestamp,
    };
    assert(distinct_oracles(s.points(data_type, sub.key)));
    lemma_upsert(s.points(data_type, sub.key), point);
    assert(t.data_points.remove((data_type, sub.key)) =~= s.data_points.remove(
        (data_type, sub.key),
    ));
    lemma_points_changed(s, t, data_type, sub.key);
}

/// A change of the submissions for one key.
proof fn lemma_points_changed(s: VerifierState, t: VerifierState, data_type: Sym, key: Sym)
    requires
        s.inv(),
        t.oracles == s.oracles,
        t.oracle_list == s.oracle_list,
        t.data_points.remove((data_type, key)) == s.data_points.remove((data_type, key)),
        distinct_oracles(t.points(data_type, key)),
        t.points(data_type, key).len() <= MAX_DATA_POINTS,
    ensures
        t.inv(),
{
    reveal(VerifierState::inv);
    assert forall|d: Sym, k: Sym|
        distinct_oracles(t.points(d, k)) && (#[trigger] list_at(t.data_points, (d, k))).len()
            <= MAX_DATA_POINTS by {
        assert(distinct_oracles(s.points(d, k)));
        assert(list_at(s.data_points, (d, k)).len() <= MAX_DATA_POINTS);
        if (d, k) != (data_type, key) {
            assert(t.data_points.remove((data_type, key)).contains_key((d, k))
                <==> t.data_points.contains_key((d, k)));
            assert(s.data_points.remove((data_type, key)).contains_key((d, k))
                <==> s.data_points.contains_key((d, k)));
            if s.data_points.contains_key((d, k)) {
                assert(t.data_points.remove((data_type, key))[(d, k)] == t.data_points[(d, k)]);
                assert(s.data_points.remove((data_type, key))[(d, k)] == s.data_points[(d, k)]);
            }
        }
    }
    assert forall|d: Sym, oracle: Addr|
        #[trigger] list_at(t.oracle_list, d).contains(oracle) <==> t.is_active(d, oracle) by {
        assert(list_at(s.oracle_list, d).contains(oracle) <==> s.is_active(d, oracle));
    }
}

proof fn lemma_store_all_keeps_inv(
    s: VerifierState,
    oracle: Addr,
    data_type: Sym,
    subs: Seq<OracleDataSubmission>,
    n: nat,
)
    requires
        s.inv(),
    ensures
        s.store_readings(oracle, data_type, subs, n).inv(),
    decreases n,
{
    if n > 0 {
        lemma_store_all_keeps_inv(s, oracle, data_type, subs, (n - 1) as nat);
        lemma_store_keeps_inv(
            s.store_readings(oracle, data_type, subs, (n - 1) as nat),
            oracle,
            data_type,
            subs[n - 1],
        );
    }
}

proof fn lemma_initialize(s: VerifierState, r: Request)
    requires
        s.inv(),
        r is Initialize,
    ensures
        s.apply(r).inv(),
{
    reveal(VerifierState::apply);
    let t = s.apply(r);
    lemma_same_records(s, t);
}

proof fn lemma_set_min_confidence(s: VerifierState, r: Request)
    requires
        s.inv(),
        r is SetMinConfidence,
    ensures
        s.apply(r).inv(),
{
    reveal(VerifierState::apply);
    let t = s.apply(r);
    lemma_same_records(s, t);
}

proof fn lemma_set_max_data_age(s: VerifierState, r: Request)
    requires
        s.inv(),
        r is SetMaxDataAge,
    ensures
        s.apply(r).inv(),
{
    reveal(VerifierState::apply);
    let t = s.apply(r);
    lemma_same_records(s, t);
}

proof fn lemma_set_min_oracle_count(s: VerifierState, r: Request)
    requires
        s.inv(),
        r is SetMinOracleCount,
    ensures
        s.apply(r).inv(),
{
    reveal(VerifierState::apply);
    let t = s.apply(r);
    lemma_same_records(s, t);
}

proof fn lemma_propose_new_admin(s: VerifierState, r: Request)
    requires
        s.inv(),
        r is ProposeNewAdmin,
    ensures
        s.apply(r).inv(),
{
    reveal(VerifierState::apply);
    let t = s.apply(r);
    lemma_same_records(s, t);
}

proof fn lemma_accept_admin(s: VerifierState, r: Request)
    requires
        s.inv(),
        r is AcceptAdmin,
    ensures
        s.apply(r).inv(),
{
    reveal(VerifierState::apply);
    let t = s.apply(r);
    lemma_same_records(s, t);
}

proof fn lemma_verify_trigger_fresh(s: VerifierState, r: Request)
    requires
        s.inv(),
        r is VerifyTriggerFresh,
    ensures
        s.apply(r).inv(),
{
    reveal(VerifierState::apply);
    let t = s.apply(r);
    lemma_same_records(s, t);
}

proof fn lemma_upgrade(s: VerifierState, r: Request)
    requires
        s.inv(),
        r is Upgrade,
    ensures
        s.apply(r).inv(),
{
    reveal(VerifierState::apply);
    let t = s.apply(r);
    lemma_same_records(s, t);
}

proof fn lemma_add_oracle(s: VerifierState, r: Request)
    requires
        s.inv(),
        r is AddOracle,
    ensures
        s.apply(r).inv(),
{
    reveal(VerifierState::apply);
    let t = s.apply(r);
    match r {
        Request::AddOracle { admin, oracle, data_type, weight } => {
            if s.add_oracle(admin, oracle, data_type, weight) is Ok {
                reveal(VerifierState::inv);
                assert forall|d: Sym, key: Sym| #[trigger] distinct_oracles(t.points(d, key)) by {
                    assert(distinct_oracles(s.points(d, key)));
                }
                let list = list_at(s.oracle_list, data_type);
                assert(list.contains(oracle) <==> s.is_active(data_type, oracle));
                lemma_push_value(list, oracle);
                assert(list_at(t.oracle_list, data_type) == list.push(oracle));
                assert(t.wf());
                assert forall|d: Sym, o: Addr|
                    #[trigger] list_at(t.oracle_list, d).contains(o) <==> t.is_active(d, o) by {
                    assert(list_at(s.oracle_list, d).contains(o) <==> s.is_active(d, o));
                    if d != data_type {
                        assert(list_at(t.oracle_list, d) == list_at(s.oracle_list, d));
                    }
                }
                assert forall|d: Sym|
                    #[trigger] list_at(t.oracle_list, d).no_duplicates() && list_at(
                        t.oracle_list,
                        d,
                    ).len() <= MAX_ORACLES by {
                    assert(list_at(s.oracle_list, d).no_duplicates());
                }
            }
        },
        _ => {},
    }
}

proof fn lemma_update_oracle_weight(s: VerifierState, r: Request)
    requires
        s.inv(),
        r is UpdateOracleWeight,
    ensures
        s.apply(r).inv(),
{
    reveal(VerifierState::apply);
    let t = s.apply(r);
    match r {
        Request::UpdateOracleWeight { admin, oracle, data_type, weight } => {
            if s.update_oracle_weight(admin, oracle, data_type, weight) is Ok {
                reveal(VerifierState::inv);
                assert forall|d: Sym, key: Sym| #[trigger] distinct_oracles(t.points(d, key)) by {
                    assert(distinct_oracles(s.points(d, key)));
                }
                assert forall|d: Sym, o: Addr|
                    #[trigger] list_at(t.oracle_list, d).contains(o) <==> t.is_active(d, o) by {
                    assert(list_at(s.oracle_list, d).contains(o) <==> s.is_active(d, o));
                }
            }
        },
        _ => {},
    }
}

/// The list without one oracle.
proof fn lemma_filter_other(list: Seq<Addr>, oracle: Addr)
    requires
        list.no_duplicates(),
    ensures
        list.filter(other_than(oracle)).no_duplicates(),
        list.filter(other_than(oracle)).len() <= list.len(),
        forall|o: Addr| #[trigger]
            list.filter(other_than(oracle)).contains(o) <==> list.contains(o) && o != oracle,
    decreases list.len(),
{
    reveal(Seq::filter);
    if list.len() > 0 {
        let rest = list.drop_last();
        lemma_filter_other(rest, oracle);
        let sub = rest.filter(other_than(oracle));
        let t = list.filter(other_than(oracle));
        assert(!rest.contains(list.last())) by {
            if rest.contains(list.last()) {
                let k = choose|k: int| 0 <= k < rest.len() && rest[k] == list.last();
                assert(list[k] == list[list.len() - 1]);
            }
        }
        assert forall|o: Addr| list.contains(o) <==> rest.contains(o) || o == list.last() by {
            if list.contains(o) {
                let k = choose|k: int| 0 <= k < list.len() && list[k] == o;
                if k < rest.len() {
                    assert(rest[k] == o);
                }
            }
            if rest.contains(o) {
                let k = choose|k: int| 0 <= k < rest.len() && rest[k] == o;
                assert(list[k] == o);
            }
            assert(list[list.len() - 1] == list.last());
        }
        if list.last() != oracle {
            lemma_push_value(sub, list.last());
        }
    }
}

proof fn lemma_remove_oracle(s: VerifierState, r: Request)
    requires
        s.inv(),
        r is RemoveOracle,
    ensures
        s.apply(r).inv(),
{
    reveal(VerifierState::apply);
    let t = s.apply(r);
    match r {
        Request::RemoveOracle { admin, oracle, data_type } => {
            if s.remove_oracle(admin, oracle, data_type) is Ok {
                reveal(VerifierState::inv);
                assert forall|d: Sym, key: Sym| #[trigger] distinct_oracles(t.points(d, key)) by {
                    assert(distinct_oracles(s.points(d, key)));
                }
                lemma_filter_other(list_at(s.oracle_list, data_type), oracle);
                assert forall|d: Sym, o: Addr|
                    #[trigger] list_at(t.oracle_list, d).contains(o) <==> t.is_active(d, o) by {
                    assert(list_at(s.oracle_list, d).contains(o) <==> s.is_active(d, o));
                }
                assert forall|d: Sym|
                    #[trigger] list_at(t.oracle_list, d).no_duplicates() && list_at(
                        t.oracle_list,
                        d,
                    ).len() <= MAX_ORACLES by {
                    assert(list_at(s.oracle_list, d).no_duplicates());
                }
            }
        },
        _ => {},
    }
}

proof fn lemma_submit_data(s: VerifierState, r: Request)
    requires
        s.inv(),
        r is SubmitData,
    ensures
        s.apply(r).inv(),
{
    reveal(VerifierState::apply);
    let t = s.apply(r);
    match r {
        Request::SubmitData { now, oracle, data_type, key, value, confidence, timestamp } => {
            if s.submit_data(now, oracle, data_type, key, value, confidence, timestamp) is Ok {
                let point = OracleDataPoint { oracle, value, confidence, timestamp };
                assert(distinct_oracles(s.points(data_type, key))) by {
                    reveal(VerifierState::inv);
                }
                assert(list_at(s.data_points, (data_type, key)).len() <= MAX_DATA_POINTS) by {
                    reveal(VerifierState::inv);
                }
                lemma_submitted(s, now, data_type, key, point);
                assert(t.data_points.remove((data_type, key)) =~= s.data_points.remove(
                    (data_type, key),
                ));
                lemma_points_changed(s, t, data_type, key);
            }
        },
        _ => {},
    }
}

proof fn lemma_submit_batch(s: VerifierState, r: Request)
    requires
        s.inv(),
        r is SubmitBatch,
    ensures
        s.apply(r).inv(),
{
    reveal(VerifierState::apply);
    let t = s.apply(r);
    match r {
        Request::SubmitBatch { now, oracle, data_type, subs, oldest } => {
            lemma_same_records(s, s.demand(oracle));
            lemma_store_all_keeps_inv(s.demand(oracle), oracle, data_type, subs, subs.len());
        },
        _ => {},
    }
}

/// No request breaks the invariant: weights are 1 to 100, no oracle has two
/// submissions for one key, and the list of a data type names exactly its
/// active oracles, of which there are not too many.
pub proof fn law_requests_keep_inv(s: VerifierState, r: Request)
    requires
        s.inv(),
    ensures
        s.apply(r).inv(),
{
    match r {
        Request::Initialize { .. } => lemma_initialize(s, r),
        Request::AddOracle { .. } => lemma_add_oracle(s, r),
        Request::UpdateOracleWeight { .. } => lemma_update_oracle_weight(s, r),
        Request::RemoveOracle { .. } => lemma_remove_oracle(s, r),
        Request::SetMinConfidence { .. } => lemma_set_min_confidence(s, r),
        Request::SetMaxDataAge { .. } => lemma_set_max_data_age(s, r),
        Request::SetMinOracleCount { .. } => lemma_set_min_oracle_count(s, r),
        Request::ProposeNewAdmin { .. } => lemma_propose_new_admin(s, r),
        Request::AcceptAdmin { .. } => lemma_accept_admin(s, r),
        Request::SubmitData { .. } => lemma_submit_data(s, r),
        Request::SubmitBatch { .. } => lemma_submit_batch(s, r),
        Request::VerifyTriggerFresh { .. } => lemma_verify_trigger_fresh(s, r),
        Request::Upgrade { .. } => lemma_upgrade(s, r),
    }
}

/// Whatever requests a new verifier gets, the invariant holds, and with it what
/// medians ask for: positive weights.
pub proof fn law_inv_always(requests: Seq<Request>)
    ensures
        VerifierState::fresh().apply_all(requests).inv(),
        VerifierState::fresh().apply_all(requests).wf(),
    decreases requests.len(),
{
    if requests.len() == 0 {
        law_fresh_inv();
    } else {
        law_inv_always(requests.drop_last());
        law_requests_keep_inv(
            VerifierState::fresh().apply_all(requests.drop_last()),
            requests.last(),
        );
    }
    reveal(VerifierState::inv);
}

/// A submission replaces the oracle's earlier one: afterwards the oracle has
/// exactly one for the key, the new one.
pub proof fn law_submission_overwrites(
    s: VerifierState,
    now: u64,
    oracle: Addr,
    data_type: Sym,
    key: Sym,
    value: i128,
    confidence: u32,
    timestamp: u64,
)
    requires
        s.inv(),
        s.submit_data(now, oracle, data_type, key, value, confidence, timestamp) is Ok,
    ensures
        ({
            let t = after(
                s,
                s.submit_data(now, oracle, data_type, key, value, confidence, timestamp),
            );
            let points = t.points(data_type, key);
            &&& points.len() > 0
            &&& points.last() == (OracleDataPoint { oracle, value, confidence, timestamp })
            &&& forall|i: int|
                0 <= i < points.len() && (#[trigger] points[i]).oracle == oracle ==> i
                    == points.len() - 1
        }),
{
    let point = OracleDataPoint { oracle, value, confidence, timestamp };
    assert(distinct_oracles(s.points(data_type, key))) by {
        reveal(VerifierState::inv);
    }
    assert(list_at(s.data_points, (data_type, key)).len() <= MAX_DATA_POINTS) by {
        reveal(VerifierState::inv);
    }
    lemma_submitted(s, now, data_type, key, point);
    let points = s.submitted(now, data_type, key, point);
    assert forall|i: int| 0 <= i < points.len() && (#[trigger] points[i]).oracle == oracle implies i
        == points.len() - 1 by {
        if i < points.len() - 1 {
            assert(points.drop_last()[i].oracle == oracle);
        }
    }
}

/// No key ever has more submissions than may be kept, one per oracle.
pub proof fn law_submissions_are_bounded(s: VerifierState, data_type: Sym, key: Sym)
    requires
        s.inv(),
    ensures
        s.points(data_type, key).len() <= MAX_DATA_POINTS,
        distinct_oracles(s.points(data_type, key)),
{
    reveal(VerifierState::inv);
    assert(list_at(s.data_points, (data_type, key)).len() <= MAX_DATA_POINTS);
}

/// A submission that is newer than all others for its key is what is read back.
pub proof fn law_submission_is_read_back(
    s: VerifierState,
    now: u64,
    oracle: Addr,
    data_type: Sym,
    key: Sym,
    value: i128,
    confidence: u32,
    timestamp: u64,
)
    requires
        s.inv(),
        s.submit_data(now, oracle, data_type, key, value, confidence, timestamp) is Ok,
        forall|i: int|
            0 <= i < s.points(data_type, key).len() ==> (#[trigger] s.points(
                data_type,
                key,
            )[i]).timestamp < timestamp,
    ensures
        ({
            let t = after(
                s,
                s.submit_data(now, oracle, data_type, key, value, confidence, timestamp),
            );
            latest_of(t.points(data_type, key)) == (OracleDataPoint {
                oracle,
                value,
                confidence,
                timestamp,
            })
        }),
{
    let point = OracleDataPoint { oracle, value, confidence, timestamp };
    assert(distinct_oracles(s.points(data_type, key))) by {
        reveal(VerifierState::inv);
    }
    assert(list_at(s.data_points, (data_type, key)).len() <= MAX_DATA_POINTS) by {
        reveal(VerifierState::inv);
    }
    lemma_submitted(s, now, data_type, key, point);
    let keep = s.survives(now, data_type, oracle);
    lemma_filter_distinct(s.points(data_type, key), keep);
    let kept = s.points(data_type, key).filter(keep);
    let points = s.submitted(now, data_type, key, point);
    let n = points.len() - 1;
    assert forall|j: int| 0 <= j < n implies (#[trigger] points[j]).timestamp < timestamp by {
        assert(kept.contains(points[j])) by {
            if kept.len() >= MAX_DATA_POINTS {
                assert(points[j] == kept[j + 1]);
            } else {
                assert(points[j] == kept[j]);
            }
        }
        let k = choose|k: int|
            0 <= k < s.points(data_type, key).len() && s.points(data_type, key)[k] == points[j];
        assert(s.points(data_type, key)[k].timestamp < timestamp);
    }
    assert(is_latest(points, n));
    let k = choose|k: int| is_latest(points, k);
    assert(k == n) by {
        if k < n {
            assert(points[k].timestamp < timestamp);
        }
    }
}

/// An oracle that was removed can submit nothing, and nothing that it submitted
/// counts toward a median.
pub proof fn law_removed_oracle_is_ignored(
    s: VerifierState,
    admin: Addr,
    oracle: Addr,
    data_type: Sym,
    now: u64,
    key: Sym,
    value: i128,
    confidence: u32,
    timestamp: u64,
    p: OracleDataPoint,
)
    requires
        s.remove_oracle(admin, oracle, data_type) is Ok,
        p.oracle == oracle,
    ensures
        ({
            let t = after(s, s.remove_oracle(admin, oracle, data_type));
            &&& t.submit_data(now, oracle, data_type, key, value, confidence, timestamp) is Err
            &&& t.contributes(now, data_type)(p) is None
            &&& !t.from_active(data_type)(p)
        }),
{
}

/// Below the required number of submissions there is no median, and so no
/// trigger is verified.
pub proof fn law_quorum_of_submissions(
    s: VerifierState,
    now: u64,
    data_type: Sym,
    key: Sym,
    condition: TriggerCondition,
    max_age_seconds: u64,
)
    requires
        s.eligible(now, data_type, key).len() < s.quorum(),
    ensures
        !s.has_median(now, data_type, key),
        s.verify_trigger_fresh(now, data_type, key, condition, max_age_seconds) is Err,
{
}

/// Where a key has submissions, a trigger is refused as stale exactly where the
/// newest of them is older than allowed; an age of just that much is still
/// fresh. Otherwise the answer is that of the plain check, and nothing changes
/// but that it is announced.
pub proof fn law_fresh_triggers(
    s: VerifierState,
    now: u64,
    data_type: Sym,
    key: Sym,
    condition: TriggerCondition,
    max_age_seconds: u64,
)
    requires
        s.points(data_type, key).len() > 0,
    ensures
        ({
            let outcome = s.verify_trigger_fresh(now, data_type, key, condition, max_age_seconds);
            let stale = age_of(now, newest_timestamp(s.points(data_type, key))) > max_age_seconds;
            &&& outcome == Err::<(VerifierState, bool), Error>(Error::StaleData) <==> stale
            &&& !stale ==> answer(outcome) == s.verify_trigger(now, data_type, key, condition)
            &&& after(s, outcome) == (VerifierState { outbox: after(s, outcome).outbox, ..s })
            &&& outcome is Err ==> after(s, outcome) == s
        }),
{
}

/// Some value with the property, where there is one, is the least of them.
proof fn lemma_least(s: Seq<Reading>, p: spec_fn(i128) -> bool) -> (k: int)
    requires
        exists|i: int| 0 <= i < s.len() && p((#[trigger] s[i]).0),
    ensures
        0 <= k < s.len(),
        p(s[k].0),
        forall|j: int| 0 <= j < s.len() && p((#[trigger] s[j]).0) ==> s[k].0 <= s[j].0,
    decreases s.len(),
{
    let rest = s.drop_last();
    let last = s.len() - 1;
    if exists|i: int| 0 <= i < rest.len() && p((#[trigger] rest[i]).0) {
        let k = lemma_least(rest, p);
        assert(forall|j: int| 0 <= j < rest.len() ==> rest[j] == #[trigger] s[j]);
        if p(s[last].0) && s[last].0 < s[k].0 {
            last
        } else {
            k
        }
    } else {
        let i = choose|i: int| 0 <= i < s.len() && p((#[trigger] s[i]).0);
        if i < last {
            assert(rest[i] == s[i]);
        }
        assert forall|j: int| 0 <= j < s.len() && p((#[trigger] s[j]).0) implies s[i].0
            <= s[j].0 by {
            if j < last {
                assert(rest[j] == s[j]);
            }
        }
        i
    }
}

/// Where some weight lies at or below `x`, some value at or below `x` has just
/// as much weight at or below it.
proof fn lemma_value_below(s: Seq<Reading>, x: i128) -> (k: int)
    requires
        weight_at_most(s, x) > 0,
    ensures
        0 <= k < s.len(),
        s[k].0 <= x,
        weight_at_most(s, s[k].0) == weight_at_most(s, x),
        forall|j: int| 0 <= j < s.len() && (#[trigger] s[j]).0 <= x ==> s[j].0 <= s[k].0,
    decreases s.len(),
{
    let rest = s.drop_last();
    let last = s.len() - 1;
    if weight_at_most(rest, x) > 0 {
        let k = lemma_value_below(rest, x);
        assert(forall|j: int| 0 <= j < rest.len() ==> rest[j] == #[trigger] s[j]);
        if s[last].0 <= x && s[last].0 > s[k].0 {
            lemma_same_weight(rest, s[last].0, x);
            last
        } else {
            k
        }
    } else {
        let m = lemma_greatest_below(s, x);
        lemma_same_weight(s, s[m].0, x);
        m
    }
}

/// The greatest value at or below `x`.
proof fn lemma_greatest_below(s: Seq<Reading>, x: i128) -> (k: int)
    requires
        exists|i: int| 0 <= i < s.len() && (#[trigger] s[i]).0 <= x,
    ensures
        0 <= k < s.len(),
        s[k].0 <= x,
        forall|j: int| 0 <= j < s.len() && (#[trigger] s[j]).0 <= x ==> s[j].0 <= s[k].0,
    decreases s.len(),
{
    let rest = s.drop_last();
    let last = s.len() - 1;
    if exists|i: int| 0 <= i < rest.len() && (#[trigger] rest[i]).0 <= x {
        let k = lemma_greatest_below(rest, x);
        assert(forall|j: int| 0 <= j < rest.len() ==> rest[j] == #[trigger] s[j]);
        if s[last].0 <= x && s[last].0 > s[k].0 {
            last
        } else {
            k
        }
    } else {
        let i = choose|i: int| 0 <= i < s.len() && (#[trigger] s[i]).0 <= x;
        assert forall|j: int| 0 <= j < s.len() && (#[trigger] s[j]).0 <= x implies s[j].0
            <= s[i].0 by {
            if j < last {
                assert(rest[j] == s[j]);
            }
            if i < last {
                assert(rest[i] == s[i]);
            }
        }
        i
    }
}

/// No value between `y` and `x`: the weights at or below them are the same.
proof fn lemma_same_weight(s: Seq<Reading>, y: i128, x: i128)
    requires
        y <= x,
        forall|j: int| 0 <= j < s.len() && (#[trigger] s[j]).0 <= x ==> s[j].0 <= y,
    ensures
        weight_at_most(s, y) == weight_at_most(s, x),
    decreases s.len(),
{
    if s.len() > 0 {
        let rest = s.drop_last();
        assert forall|j: int| 0 <= j < rest.len() && (#[trigger] rest[j]).0 <= x implies rest[j].0
            <= y by {
            assert(s[j].0 <= y);
        }
        lemma_same_weight(rest, y, x);
        assert(s[s.len() - 1] == s.last());
    }
}

/// The weight of the readings whose value lies between `lo` and `hi`.
pub open spec fn weight_within(s: Seq<Reading>, lo: i128, hi: i128) -> nat
    decreases s.len(),
{
    if s.len() == 0 {
        0
    } else {
        weight_within(s.drop_last(), lo, hi) + if lo <= s.last().0 <= hi {
            s.last().1 as nat
        } else {
            0
        }
    }
}

proof fn lemma_within(s: Seq<Reading>, lo: i128, hi: i128, x: i128)
    ensures
        x >= hi ==> weight_within(s, lo, hi) <= weight_at_most(s, x),
        x < lo ==> weight_within(s, lo, hi) + weight_at_most(s, x) <= total_weight(s),
    decreases s.len(),
{
    if s.len() > 0 {
        lemma_within(s.drop_last(), lo, hi, x);
    }
}

/// Where the readings between `lo` and `hi` have more than half of the weight,
/// the median lies between `lo` and `hi`, whatever the others report: a
/// minority of outliers cannot move it out.
pub proof fn law_minority_cannot_move_the_median(s: Seq<Reading>, lo: i128, hi: i128)
    requires
        2 * weight_within(s, lo, hi) > total_weight(s),
        lo <= hi,
    ensures
        is_lower_median(s, lower_median(s)),
        is_upper_median(s, upper_median(s)),
        lo <= lower_median(s) <= upper_median(s) <= hi,
        lo <= weighted_median(s) <= hi,
{
    lemma_within(s, lo, hi, hi);
    let m = lemma_value_below(s, hi);
    let at_least_half = |x: i128| 2 * weight_at_most(s, x) >= total_weight(s);
    let over_half = |x: i128| 2 * weight_at_most(s, x) > total_weight(s);
    assert(over_half(s[m].0) && at_least_half(s[m].0));
    let l = lemma_least(s, at_least_half);
    let u = lemma_least(s, over_half);
    assert(is_lower_median(s, s[l].0)) by {
        assert forall|i: int|
            0 <= i < s.len() && 2 * weight_at_most(s, (#[trigger] s[i]).0) >= total_weight(
                s,
            ) implies s[l].0 <= s[i].0 by {
            assert(at_least_half(s[i].0));
        }
    }
    assert(is_upper_median(s, s[u].0)) by {
        assert forall|i: int|
            0 <= i < s.len() && 2 * weight_at_most(s, (#[trigger] s[i]).0) > total_weight(
                s,
            ) implies s[u].0 <= s[i].0 by {
            assert(over_half(s[i].0));
        }
    }
    lemma_lower_unique(s, s[l].0);
    lemma_upper_unique(s, s[u].0);
    assert(s[u].0 <= s[m].0);
    assert(at_least_half(s[u].0));
    lemma_within(s, lo, hi, s[l].0);
}

/// The median lies between the least and the greatest value reported.
pub proof fn law_median_is_within_reports(s: Seq<Reading>, lo: i128, hi: i128)
    requires
        s.len() > 0,
        positive_weights(s),
        forall|i: int| 0 <= i < s.len() ==> lo <= (#[trigger] s[i]).0 <= hi,
    ensures
        lo <= weighted_median(s) <= hi,
{
    lemma_all_within(s, lo, hi);
    assert(s[0].0 <= hi);
    law_minority_cannot_move_the_median(s, lo, hi);
}

/// Values and thresholds that a quarter of the range holds can always be worked
/// with: the median can be taken, and its distance from the threshold.
pub proof fn law_ordinary_values_are_computable(s: Seq<Reading>, condition: TriggerCondition)
    requires
        s.len() > 0,
        positive_weights(s),
        forall|i: int|
            0 <= i < s.len() ==> -0x2000_0000_0000_0000_0000_0000_0000_0000 <= (#[trigger] s[i]).0
                <= 0x2000_0000_0000_0000_0000_0000_0000_0000,
        -0x2000_0000_0000_0000_0000_0000_0000_0000 <= condition.threshold
            <= 0x2000_0000_0000_0000_0000_0000_0000_0000,
    ensures
        median_fits(s),
        distance_fits(weighted_median(s), condition),
{
    let lo = -0x2000_0000_0000_0000_0000_0000_0000_0000 as i128;
    let hi: i128 = 0x2000_0000_0000_0000_0000_0000_0000_0000;
    lemma_all_within(s, lo, hi);
    law_minority_cannot_move_the_median(s, lo, hi);
}

proof fn lemma_all_within(s: Seq<Reading>, lo: i128, hi: i128)
    requires
        positive_weights(s),
        forall|i: int| 0 <= i < s.len() ==> lo <= (#[trigger] s[i]).0 <= hi,
    ensures
        weight_within(s, lo, hi) == total_weight(s),
        s.len() > 0 ==> total_weight(s) > 0,
    decreases s.len(),
{
    if s.len() > 0 {
        let rest = s.drop_last();
        assert forall|i: int| 0 <= i < rest.len() implies lo <= (#[trigger] rest[i]).0 <= hi by {
            assert(lo <= s[i].0 <= hi);
        }
        assert forall|i: int| 0 <= i < rest.len() implies (#[trigger] rest[i]).1 > 0 by {
            assert(s[i].1 > 0);
        }
        lemma_all_within(rest, lo, hi);
        assert(s[s.len() - 1].1 > 0);
        assert(lo <= s[s.len() - 1].0 <= hi);
    }
}

/// The administrator that a request claims to come from.
pub open spec fn admin_of(r: Request) -> Option<Addr> {
    match r {
        Request::AddOracle { admin, .. } => Some(admin),
        Request::UpdateOracleWeight { admin, .. } => Some(admin),
        Request::RemoveOracle { admin, .. } => Some(admin),
        Request::SetMinConfidence { admin, .. } => Some(admin),
        Request::SetMaxDataAge { admin, .. } => Some(admin),
        Request::SetMinOracleCount { admin, .. } => Some(admin),
        Request::ProposeNewAdmin { admin, .. } => Some(admin),
        Request::Upgrade { admin, .. } => Some(admin),
        _ => None,
    }
}

/// An administrative request has an effect only where it comes from the stored
/// administrator, whose authorisation is demanded.
pub proof fn law_admin_only(s: VerifierState, r: Request)
    requires
        admin_of(r) is Some,
        s.apply(r) != s,
    ensures
        s.admin == admin_of(r),
        s.apply(r).outbox.len() > s.outbox.len(),
        s.apply(r).outbox[s.outbox.len() as int] == Effect::RequireAuth(admin_of(r)->0),
{
    reveal(VerifierState::apply);
}

proof fn lemma_store_readings_outbox(
    s: VerifierState,
    oracle: Addr,
    data_type: Sym,
    subs: Seq<OracleDataSubmission>,
    n: nat,
)
    ensures
        s.outbox.is_prefix_of(s.store_readings(oracle, data_type, subs, n).outbox),
    decreases n,
{
    if n > 0 {
        lemma_store_readings_outbox(s, oracle, data_type, subs, (n - 1) as nat);
    }
}

/// The oracle and the data type that a request submits for.
pub open spec fn submitter_of(r: Request) -> Option<(Addr, Sym)> {
    match r {
        Request::SubmitData { oracle, data_type, .. } => Some((oracle, data_type)),
        Request::SubmitBatch { oracle, data_type, .. } => Some((oracle, data_type)),
        _ => None,
    }
}

/// Submissions change only at the request of an oracle that is registered and
/// active for the data type and whose authorisation is demanded.
pub proof fn law_only_oracles_submit(s: VerifierState, r: Request)
    requires
        s.apply(r).data_points != s.data_points,
    ensures
        submitter_of(r) matches Some((oracle, data_type)) && s.is_active(data_type, oracle)
            && s.apply(r).outbox.len() > s.outbox.len() && s.apply(r).outbox[s.outbox.len() as int]
            == Effect::RequireAuth(oracle),
{
    reveal(VerifierState::apply);
    match r {
        Request::SubmitBatch { now, oracle, data_type, subs, oldest } => {
            let asked = s.demand(oracle);
            lemma_store_readings_outbox(asked, oracle, data_type, subs, subs.len());
            let t = s.apply(r);
            assert(asked.outbox[s.outbox.len() as int] == Effect::RequireAuth(oracle));
            assert(t.outbox.len() >= asked.outbox.len());
        },
        _ => {},
    }
}

} // verus!
