//! What the verifier takes in and what it tells of it.

use crate::oracle_verifier::state::{
    VerifierState, has_slot, is_latest, is_slot, latest_of, lowest_confidence, newest_timestamp,
    other_than, upsert,
};
use crate::oracle_verifier::types::{
    AdminUpdated, Effect, Error, Event, Initialized, MaxDataAgeUpdated, MinConfidenceUpdated,
    MinOracleCountUpdated, OracleAdded, OracleDataPoint, OracleDataSubmission, OracleDataSubmitted,
    OracleEntry, OracleRemoved, TriggerCondition,
};
use crate::outcome::after;
use crate::sums::{lemma_sum_by_last, sum_by};
use crate::table::list_at;
use crate::text::{Addr, Sym};
use vstd::prelude::*;

verus! {

/// Whether a submission comes from an oracle that is active for the data type.
pub open spec fn is_from_active(s: VerifierState, data_type: Sym, p: OracleDataPoint) -> bool {
    s.oracles.contains_key((data_type, p.oracle)) && s.oracles[(data_type, p.oracle)].active
}

/// The weight of a submission's oracle, where it is active.
pub open spec fn active_weight(s: VerifierState, data_type: Sym, p: OracleDataPoint) -> int {
    if is_from_active(s, data_type, p) {
        s.oracles[(data_type, p.oracle)].weight as int
    } else {
        0
    }
}

proof fn lemma_active(s: VerifierState, data_type: Sym, points: Seq<OracleDataPoint>)
    requires
        s.wf(),
    ensures
        ({
            let kept = points.filter(s.from_active(data_type));
            let weights = |p: OracleDataPoint| active_weight(s, data_type, p);
            let weighted = |p: OracleDataPoint| p.confidence * active_weight(s, data_type, p);
            let ones = |p: OracleDataPoint|
                if is_from_active(s, data_type, p) {
                    1int
                } else {
                    0
                };
            &&& s.weight_sum(data_type, kept) == sum_by(points, weights)
            &&& s.confidence_sum(data_type, kept) == sum_by(points, weighted)
            &&& kept.len() == sum_by(points, ones)
            &&& 0 <= sum_by(points, weighted) <= 0xFFFF_FFFF * sum_by(points, weights)
            &&& 0 <= sum_by(points, weights)
            &&& kept.len() <= points.len()
            &&& forall|i: int|
                0 <= i < points.len() && is_from_active(s, data_type, #[trigger] points[i])
                    ==> lowest_confidence(kept) <= points[i].confidence && newest_timestamp(kept)
                    >= points[i].timestamp
            &&& lowest_confidence(kept) == 100 || exists|i: int|
                0 <= i < points.len() && is_from_active(s, data_type, #[trigger] points[i])
                    && points[i].confidence == lowest_confidence(kept)
            &&& lowest_confidence(kept) <= 100
            &&& newest_timestamp(kept) == 0 || exists|i: int|
                0 <= i < points.len() && is_from_active(s, data_type, #[trigger] points[i])
                    && points[i].timestamp == newest_timestamp(kept)
        }),
    decreases points.len(),
{
    reveal(Seq::filter);
    if points.len() > 0 {
        let rest = points.drop_last();
        let p = points.last();
        let weights = |p: OracleDataPoint| active_weight(s, data_type, p);
        let weighted = |p: OracleDataPoint| p.confidence * active_weight(s, data_type, p);
        let ones = |p: OracleDataPoint|
            if is_from_active(s, data_type, p) {
                1int
            } else {
                0
            };
        lemma_active(s, data_type, rest);
        lemma_sum_by_last(points, weights);
        lemma_sum_by_last(points, weighted);
        lemma_sum_by_last(points, ones);
        let kept = points.filter(s.from_active(data_type));
        let before = rest.filter(s.from_active(data_type));
        let w = active_weight(s, data_type, p);
        let c = p.confidence as int;
        assert(0 <= c * w <= 0xFFFF_FFFF * w) by (nonlinear_arith)
            requires
                0 <= c <= 0xFFFF_FFFF,
                0 <= w,
        ;
        if is_from_active(s, data_type, p) {
            assert(kept.drop_last() =~= before);
            assert(kept.last() == p);
        } else {
            assert(c * w == 0) by (nonlinear_arith)
                requires
                    w == 0,
            ;
        }
        assert forall|i: int|
            0 <= i < points.len() && is_from_active(
                s,
                data_type,
                #[trigger] points[i],
            ) implies lowest_confidence(kept) <= points[i].confidence && newest_timestamp(kept)
            >= points[i].timestamp by {
            if i < rest.len() {
                assert(rest[i] == points[i]);
            }
        }
        if lowest_confidence(kept) != 100 {
            if is_from_active(s, data_type, p) && lowest_confidence(kept) == p.confidence {
                assert(points[points.len() - 1] == p);
            } else {
                let i = choose|i: int|
                    0 <= i < rest.len() && is_from_active(s, data_type, #[trigger] rest[i])
                        && rest[i].confidence == lowest_confidence(before);
                assert(points[i] == rest[i]);
            }
        }
        if newest_timestamp(kept) != 0 {
            if is_from_active(s, data_type, p) && newest_timestamp(kept) == p.timestamp {
                assert(points[points.len() - 1] == p);
            } else {
                let i = choose|i: int|
                    0 <= i < rest.len() && is_from_active(s, data_type, #[trigger] rest[i])
                        && rest[i].timestamp == newest_timestamp(before);
                assert(points[i] == rest[i]);
            }
        }
    }
}

/// What is told of a key: how many of its submissions come from active oracles,
/// and of these the least confidence, the newest timestamp, and the average
/// confidence by weight, rounded down; and how many oracles are active for the
/// data type.
pub proof fn law_statistics(s: VerifierState, now: u64, data_type: Sym, key: Sym)
    requires
        s.inv(),
    ensures
        ({
            let a = s.aggregate(now, data_type, key);
            let points = s.points(data_type, key);
            let weight = sum_by(points, |p: OracleDataPoint| active_weight(s, data_type, p));
            let weighted = sum_by(
                points,
                |p: OracleDataPoint| p.confidence * active_weight(s, data_type, p),
            );
            &&& a.oracle_count == sum_by(
                points,
                |p: OracleDataPoint|
                    if is_from_active(s, data_type, p) {
                        1int
                    } else {
                        0
                    },
            )
            &&& a.active_oracle_count == list_at(s.oracle_list, data_type).len()
            &&& weight == 0 ==> a.confidence == 0
            &&& weight > 0 ==> a.confidence * weight <= weighted < (a.confidence + 1) * weight
            &&& forall|i: int|
                0 <= i < points.len() && is_from_active(s, data_type, #[trigger] points[i])
                    ==> a.min_confidence <= points[i].confidence && a.last_updated
                    >= points[i].timestamp
            &&& a.min_confidence == 100 || exists|i: int|
                0 <= i < points.len() && is_from_active(s, data_type, #[trigger] points[i])
                    && points[i].confidence == a.min_confidence
            &&& a.min_confidence <= 100
            &&& a.last_updated == 0 || exists|i: int|
                0 <= i < points.len() && is_from_active(s, data_type, #[trigger] points[i])
                    && points[i].timestamp == a.last_updated
            &&& i128::MIN <= s.median(now, data_type, key) <= i128::MAX ==> a.median_value
                == s.median(now, data_type, key)
        }),
{
    reveal(VerifierState::inv);
    let points = s.points(data_type, key);
    assert(list_at(s.data_points, (data_type, key)).len() <= 100);
    lemma_active(s, data_type, points);
    let weights = |p: OracleDataPoint| active_weight(s, data_type, p);
    let weighted = |p: OracleDataPoint| p.confidence * active_weight(s, data_type, p);
    let w = sum_by(points, weights);
    let c = sum_by(points, weighted);
    if w > 0 {
        assert(0 <= c / w <= 0xFFFF_FFFF) by (nonlinear_arith)
            requires
                w > 0,
                0 <= c <= 0xFFFF_FFFF * w,
        ;
        assert((c / w) * w <= c < (c / w + 1) * w) by (nonlinear_arith)
            requires
                w > 0,
        ;
    }
    let list = list_at(s.oracle_list, data_type);
    assert(list.filter(s.oracle_active(data_type)) =~= list) by {
        assert forall|i: int| 0 <= i < list.len() implies s.oracle_active(data_type)(
            #[trigger] list[i],
        ) by {
            assert(list.contains(list[i]));
        }
        lemma_filter_all(list, s.oracle_active(data_type));
    }
    assert(list.no_duplicates() && list.len() <= 100);
}

proof fn lemma_filter_all(list: Seq<Addr>, keep: spec_fn(Addr) -> bool)
    requires
        forall|i: int| 0 <= i < list.len() ==> keep(#[trigger] list[i]),
    ensures
        list.filter(keep) == list,
    decreases list.len(),
{
    reveal(Seq::filter);
    if list.len() > 0 {
        let rest = list.drop_last();
        assert forall|i: int| 0 <= i < rest.len() implies keep(#[trigger] rest[i]) by {
            assert(keep(list[i]));
        }
        lemma_filter_all(rest, keep);
        assert(keep(list[list.len() - 1]));
        assert(rest.push(list.last()) =~= list);
    }
}

proof fn lemma_newest(points: Seq<OracleDataPoint>)
    ensures
        forall|i: int|
            0 <= i < points.len() ==> newest_timestamp(points) >= (#[trigger] points[i]).timestamp,
        points.len() > 0 ==> exists|i: int|
            0 <= i < points.len() && newest_timestamp(points) == (#[trigger] points[i]).timestamp,
    decreases points.len(),
{
    if points.len() > 0 {
        let rest = points.drop_last();
        lemma_newest(rest);
        assert forall|i: int| 0 <= i < points.len() implies newest_timestamp(points)
            >= (#[trigger] points[i]).timestamp by {
            if i < rest.len() {
                assert(rest[i] == points[i]);
            }
        }
        if newest_timestamp(points) == points.last().timestamp {
            assert(points[points.len() - 1].timestamp == newest_timestamp(points));
        } else if rest.len() > 0 {
            let i = choose|i: int|
                0 <= i < rest.len() && newest_timestamp(rest) == (#[trigger] rest[i]).timestamp;
            assert(points[i] == rest[i]);
        }
    }
}

/// A trigger on fresh data is refused as stale where every submission for the
/// key is older than allowed, and only there.
pub proof fn law_stale_means_all_too_old(
    s: VerifierState,
    now: u64,
    data_type: Sym,
    key: Sym,
    condition: TriggerCondition,
    max_age: u64,
)
    requires
        s.points(data_type, key).len() > 0,
    ensures
        s.verify_trigger_fresh(now, data_type, key, condition, max_age) == Err::<
            (VerifierState, bool),
            Error,
        >(Error::StaleData) <==> forall|i: int|
            0 <= i < s.points(data_type, key).len() ==> (#[trigger] s.points(
                data_type,
                key,
            )[i]).timestamp + max_age < now,
{
    let points = s.points(data_type, key);
    lemma_newest(points);
    let k = choose|i: int|
        0 <= i < points.len() && newest_timestamp(points) == (#[trigger] points[i]).timestamp;
    if forall|i: int| 0 <= i < points.len() ==> (#[trigger] points[i]).timestamp + max_age < now {
        assert(points[k].timestamp + max_age < now);
    }
}

/// What is announced of a trigger on fresh data is what is answered, with the
/// median that it was decided on.
pub proof fn law_verdict_is_announced(
    s: VerifierState,
    now: u64,
    data_type: Sym,
    key: Sym,
    condition: TriggerCondition,
    max_age: u64,
)
    ensures
        s.verify_trigger_fresh(now, data_type, key, condition, max_age) matches Ok((t, verdict))
            ==> t =~= (VerifierState {
            outbox: s.outbox.push(
                Effect::Emit(
                    Event::VerificationResult {
                        data_type,
                        key,
                        result: verdict,
                        median: s.median(now, data_type, key) as i128,
                        threshold: condition.threshold,
                    },
                ),
            ),
            ..s
        }),
{
}

/// The latest submission is one of those for the key: none is later, and of
/// equally late ones it is the first.
pub proof fn law_latest_submission(points: Seq<OracleDataPoint>) -> (k: int)
    requires
        points.len() > 0,
    ensures
        0 <= k < points.len(),
        latest_of(points) == points[k],
        forall|i: int|
            0 <= i < points.len() ==> (#[trigger] points[i]).timestamp <= points[k].timestamp,
        forall|i: int| 0 <= i < k ==> (#[trigger] points[i]).timestamp < points[k].timestamp,
{
    lemma_first_latest(points);
    let k = choose|i: int| is_latest(points, i);
    assert(is_latest(points, k));
    k
}

proof fn lemma_first_latest(points: Seq<OracleDataPoint>)
    requires
        points.len() > 0,
    ensures
        exists|i: int| is_latest(points, i),
    decreases points.len(),
{
    let rest = points.drop_last();
    if rest.len() == 0 {
        assert(is_latest(points, 0));
    } else {
        lemma_first_latest(rest);
        let k = choose|i: int| is_latest(rest, i);
        assert(forall|i: int| 0 <= i < rest.len() ==> rest[i] == #[trigger] points[i]);
        if points.last().timestamp > rest[k].timestamp {
            assert(is_latest(points, rest.len() as int));
        } else {
            assert(is_latest(points, k));
        }
    }
}

/// A reading is taken from an oracle that is registered and active for the data
/// type, with a confidence of 1 to 100 and a timestamp that is neither in the
/// future nor more than ninety days old; any other is refused.
pub proof fn law_which_submissions_are_taken(
    s: VerifierState,
    now: u64,
    oracle: Addr,
    data_type: Sym,
    key: Sym,
    value: i128,
    confidence: u32,
    timestamp: u64,
)
    ensures
        ({
            let outcome = s.submit_data(now, oracle, data_type, key, value, confidence, timestamp);
            let registered = s.oracles.contains_key((data_type, oracle));
            let active = registered && s.oracles[(data_type, oracle)].active;
            let confident = 1 <= confidence <= 100;
            let timely = timestamp <= now <= timestamp + 7_776_000;
            &&& outcome is Ok <==> confident && timely && active
            &&& !confident ==> outcome == Err::<(VerifierState, ()), Error>(
                Error::InvalidConfidence,
            )
            &&& confident && !timely ==> outcome == Err::<(VerifierState, ()), Error>(
                Error::InvalidTimestamp,
            )
            &&& confident && timely && !registered ==> outcome == Err::<(VerifierState, ()), Error>(
                Error::OracleNotRegistered,
            )
            &&& confident && timely && registered && !active ==> outcome == Err::<
                (VerifierState, ()),
                Error,
            >(Error::Unauthorized)
        }),
{
}

/// What is announced of a reading.
pub open spec fn announced(
    oracle: Addr,
    data_type: Sym,
    key: Sym,
    value: i128,
    confidence: u32,
    timestamp: u64,
) -> Event {
    Event::OracleDataSubmitted(
        OracleDataSubmitted { oracle, data_type, key, value, confidence, timestamp },
    )
}

/// A reading stands last for its key, with the latest readings of the others
/// before it: those of oracles that are active and no older than allowed, in
/// their order, and of those at most ninety-nine.
pub proof fn law_submission_keeps_the_others(
    s: VerifierState,
    now: u64,
    oracle: Addr,
    data_type: Sym,
    key: Sym,
    value: i128,
    confidence: u32,
    timestamp: u64,
    p: OracleDataPoint,
)
    requires
        s.inv(),
        s.submit_data(now, oracle, data_type, key, value, confidence, timestamp) is Ok,
        p.oracle != oracle,
    ensures
        ({
            let t = after(
                s,
                s.submit_data(now, oracle, data_type, key, value, confidence, timestamp),
            );
            let before = s.points(data_type, key);
            let kept = before.contains(p) && is_from_active(s, data_type, p) && now <= p.timestamp
                + match s.max_data_age {
                Some(age) => age as int,
                None => 604_800,
            };
            &&& t.points(data_type, key).contains(p) ==> kept
            &&& before.len() < 100 && kept ==> t.points(data_type, key).contains(p)
            &&& t.points(data_type, key).last() == (OracleDataPoint {
                oracle,
                value,
                confidence,
                timestamp,
            })
            &&& t =~= (VerifierState {
                data_points: s.data_points.insert((data_type, key), t.points(data_type, key)),
                outbox: s.outbox + seq![
                    Effect::RequireAuth(oracle),
                    Effect::Emit(announced(oracle, data_type, key, value, confidence, timestamp)),
                ],
                ..s
            })
        }),
{
    reveal(VerifierState::inv);
    let before = s.points(data_type, key);
    let keep = s.survives(now, data_type, oracle);
    let point = OracleDataPoint { oracle, value, confidence, timestamp };
    let rest = before.filter(keep);
    let all = s.submitted(now, data_type, key, point);
    assert(list_at(s.data_points, (data_type, key)).len() <= 100);
    lemma_filter_points(before, keep, p);
    let base = if rest.len() >= 100 {
        rest.drop_first()
    } else {
        rest
    };
    assert(all == base.push(point));
    if all.contains(p) {
        let i = choose|i: int| 0 <= i < all.len() && all[i] == p;
        assert(i < base.len());
        if base == rest {
            assert(rest[i] == p);
        } else {
            assert(rest[i + 1] == p);
        }
        assert(rest.contains(p));
    }
    if rest.contains(p) && rest.len() < 100 {
        let i = choose|i: int| 0 <= i < rest.len() && rest[i] == p;
        assert(all[i] == p);
    }
}

proof fn lemma_filter_points(
    points: Seq<OracleDataPoint>,
    keep: spec_fn(OracleDataPoint) -> bool,
    p: OracleDataPoint,
)
    ensures
        points.filter(keep).contains(p) <==> points.contains(p) && keep(p),
        points.filter(keep).len() <= points.len(),
    decreases points.len(),
{
    reveal(Seq::filter);
    if points.len() > 0 {
        let rest = points.drop_last();
        let last = points.last();
        lemma_filter_points(rest, keep, p);
        assert(points.contains(p) <==> rest.contains(p) || last == p) by {
            if points.contains(p) {
                let i = choose|i: int| 0 <= i < points.len() && points[i] == p;
                if i < rest.len() {
                    assert(rest[i] == p);
                }
            }
            if rest.contains(p) {
                let i = choose|i: int| 0 <= i < rest.len() && rest[i] == p;
                assert(points[i] == p);
            }
            if last == p {
                assert(points[points.len() - 1] == p);
            }
        }
        if keep(last) {
            let r = rest.filter(keep);
            let all = points.filter(keep);
            assert(all =~= r.push(last));
            assert(all.contains(p) <==> r.contains(p) || last == p) by {
                if all.contains(p) {
                    let i = choose|i: int| 0 <= i < all.len() && all[i] == p;
                    if i < r.len() {
                        assert(r[i] == p);
                    }
                }
                if r.contains(p) {
                    let i = choose|i: int| 0 <= i < r.len() && r[i] == p;
                    assert(all[i] == p);
                }
                if last == p {
                    assert(all[r.len() as int] == p);
                }
            }
        }
    }
}

/// Storing a reading: the oracle's point for the key is the reading, and other
/// keys are left alone.
proof fn lemma_stored(
    s: VerifierState,
    oracle: Addr,
    data_type: Sym,
    sub: OracleDataSubmission,
    other_type: Sym,
    other_key: Sym,
)
    ensures
        ({
            let t = s.store_reading(oracle, data_type, sub);
            let point = OracleDataPoint {
                oracle,
                value: sub.value,
                confidence: sub.confidence,
                timestamp: sub.timestamp,
            };
            &&& t.points(data_type, sub.key).contains(point)
            &&& (other_type, other_key) != (data_type, sub.key) ==> t.points(other_type, other_key)
                == s.points(other_type, other_key)
            &&& t.oracles == s.oracles
        }),
{
    let points = s.points(data_type, sub.key);
    let p = OracleDataPoint {
        oracle,
        value: sub.value,
        confidence: sub.confidence,
        timestamp: sub.timestamp,
    };
    let t = s.store_reading(oracle, data_type, sub);
    let now_points = upsert(points, p);
    assert(t.points(data_type, sub.key) == now_points);
    if has_slot(points, oracle) {
        lemma_has_first(points, oracle, points.len() as int);
        let k = choose|k: int| is_slot(points, oracle, k);
        assert(now_points[k] == p);
    } else {
        assert(now_points[now_points.len() - 1] == p);
    }
}

proof fn lemma_has_first(points: Seq<OracleDataPoint>, oracle: Addr, n: int)
    requires
        0 <= n <= points.len(),
        exists|i: int| 0 <= i < n && (#[trigger] points[i]).oracle == oracle,
    ensures
        exists|k: int| is_slot(points, oracle, k),
    decreases n,
{
    if exists|i: int| 0 <= i < n - 1 && (#[trigger] points[i]).oracle == oracle {
        lemma_has_first(points, oracle, n - 1);
    } else {
        assert(is_slot(points, oracle, n - 1));
    }
}

/// A batch is taken whole or not at all: where the oracle is registered and
/// active for the data type and every reading is confident and timely. Then the
/// last reading for each of its keys stands for the oracle, and other keys are
/// left alone.
pub proof fn law_batches_of_readings(
    s: VerifierState,
    now: u64,
    oracle: Addr,
    data_type: Sym,
    subs: Seq<OracleDataSubmission>,
    max_age: Option<u64>,
    i: int,
    other_type: Sym,
    other_key: Sym,
)
    ensures
        ({
            let outcome = s.submit_batch(now, oracle, data_type, subs, max_age);
            let t = after(s, outcome);
            &&& outcome is Ok <==> s.oracles.contains_key((data_type, oracle)) && s.oracles[(
                data_type,
                oracle,
            )].active && forall|k: int|
                0 <= k < subs.len() ==> 1 <= (#[trigger] subs[k]).confidence <= 100
                    && subs[k].timestamp <= now && (max_age matches Some(a) ==> now
                    <= subs[k].timestamp + a)
            &&& outcome is Err ==> t == s
            &&& outcome is Ok ==> {
                &&& t =~= (VerifierState { data_points: t.data_points, outbox: t.outbox, ..s })
                &&& t.outbox.len() == s.outbox.len() + 1 + subs.len()
                &&& t.outbox[s.outbox.len() as int] == Effect::RequireAuth(oracle)
                &&& 0 <= i < subs.len() ==> t.outbox[s.outbox.len() + 1 + i] == Effect::Emit(
                    announced(
                        oracle,
                        data_type,
                        subs[i].key,
                        subs[i].value,
                        subs[i].confidence,
                        subs[i].timestamp,
                    ),
                )
            }
            &&& outcome is Ok && 0 <= i < subs.len() && (forall|k: int|
                i < k < subs.len() ==> (#[trigger] subs[k]).key != subs[i].key) ==> t.points(
                data_type,
                subs[i].key,
            ).contains(
                OracleDataPoint {
                    oracle,
                    value: subs[i].value,
                    confidence: subs[i].confidence,
                    timestamp: subs[i].timestamp,
                },
            )
            &&& other_type != data_type || (forall|k: int|
                0 <= k < subs.len() ==> (#[trigger] subs[k]).key != other_key) ==> t.points(
                other_type,
                other_key,
            ) == s.points(other_type, other_key)
        }),
{
    lemma_readings_ok(now, subs, max_age, subs.len());
    let asked = s.demand(oracle);
    lemma_all_stored(asked, oracle, data_type, subs, subs.len(), i, other_type, other_key);
    assert(asked.outbox.len() == s.outbox.len() + 1);
    assert(asked.outbox[s.outbox.len() as int] == Effect::RequireAuth(oracle));
}

proof fn lemma_readings_ok(
    now: u64,
    subs: Seq<OracleDataSubmission>,
    max_age: Option<u64>,
    n: nat,
)
    requires
        n <= subs.len(),
    ensures
        VerifierState::readings_error(now, subs, max_age, n) is None <==> forall|k: int|
            0 <= k < n ==> 1 <= (#[trigger] subs[k]).confidence <= 100 && subs[k].timestamp <= now
                && (max_age matches Some(a) ==> now <= subs[k].timestamp + a),
    decreases n,
{
    if n > 0 {
        lemma_readings_ok(now, subs, max_age, (n - 1) as nat);
    }
}

proof fn lemma_all_stored(
    s: VerifierState,
    oracle: Addr,
    data_type: Sym,
    subs: Seq<OracleDataSubmission>,
    n: nat,
    i: int,
    other_type: Sym,
    other_key: Sym,
)
    requires
        n <= subs.len(),
    ensures
        ({
            let t = s.store_readings(oracle, data_type, subs, n);
            &&& t =~= (VerifierState { data_points: t.data_points, outbox: t.outbox, ..s })
            &&& t.outbox.len() == s.outbox.len() + n
            &&& s.outbox.is_prefix_of(t.outbox)
            &&& 0 <= i < n ==> t.outbox[s.outbox.len() + i] == Effect::Emit(
                announced(
                    oracle,
                    data_type,
                    subs[i].key,
                    subs[i].value,
                    subs[i].confidence,
                    subs[i].timestamp,
                ),
            )
            &&& 0 <= i < n && (forall|k: int|
                i < k < n ==> (#[trigger] subs[k]).key != subs[i].key) ==> t.points(
                data_type,
                subs[i].key,
            ).contains(
                OracleDataPoint {
                    oracle,
                    value: subs[i].value,
                    confidence: subs[i].confidence,
                    timestamp: subs[i].timestamp,
                },
            )
            &&& other_type != data_type || (forall|k: int|
                0 <= k < n ==> (#[trigger] subs[k]).key != other_key) ==> t.points(
                other_type,
                other_key,
            ) == s.points(other_type, other_key)
        }),
    decreases n,
{
    if n > 0 {
        lemma_all_stored(
            s,
            oracle,
            data_type,
            subs,
            (n - 1) as nat,
            i,
            other_type,
            other_key,
        );
        let before = s.store_readings(oracle, data_type, subs, (n - 1) as nat);
        let last = subs[n - 1];
        lemma_stored(before, oracle, data_type, last, other_type, other_key);
        if 0 <= i < n {
            lemma_stored(before, oracle, data_type, last, data_type, subs[i].key);
        }
    }
}

/// An oracle is registered with a weight of 1 to 100, active, once per data
/// type, and as long as there is room among a hundred; the weight can be changed
/// within these bounds, and a removed oracle keeps its weight but is active no
/// more.
pub proof fn law_registrations(
    s: VerifierState,
    admin: Addr,
    oracle: Addr,
    data_type: Sym,
    weight: u32,
)
    requires
        s.inv(),
        s.admin == Some(admin),
        oracle@.len() == 56,
        oracle@[0] == 71 || oracle@[0] == 67,
    ensures
        ({
            let k = (data_type, oracle);
            let known = s.oracles.contains_key(k);
            let added = s.add_oracle(admin, oracle, data_type, weight);
            let changed = s.update_oracle_weight(admin, oracle, data_type, weight);
            let removed = s.remove_oracle(admin, oracle, data_type);
            &&& added is Ok <==> 1 <= weight <= 100 && !known && list_at(
                s.oracle_list,
                data_type,
            ).len() < 100
            &&& added matches Ok((t, _)) ==> t =~= (VerifierState {
                oracles: s.oracles.insert(
                    k,
                    OracleEntry { oracle, data_type, weight, active: true },
                ),
                oracle_list: t.oracle_list,
                outbox: s.outbox + seq![
                    Effect::RequireAuth(admin),
                    Effect::Emit(Event::OracleAdded(OracleAdded { oracle, data_type, weight })),
                ],
                ..s
            }) && list_at(t.oracle_list, data_type) == list_at(s.oracle_list, data_type).push(
                oracle,
            )
            &&& added matches Err(e) ==> {
                ||| e == Error::InvalidWeight && !(1 <= weight <= 100)
                ||| e == Error::OracleAlreadyExists && known
                ||| e == Error::TooManyOracles && list_at(s.oracle_list, data_type).len() >= 100
            }
            &&& changed is Ok <==> 1 <= weight <= 100 && known
            &&& changed matches Ok((t, _)) ==> t =~= (VerifierState {
                oracles: s.oracles.insert(k, OracleEntry { weight, ..s.oracles[k] }),
                outbox: s.outbox + seq![Effect::RequireAuth(admin)],
                ..s
            })
            &&& changed matches Err(e) ==> {
                ||| e == Error::InvalidWeight && !(1 <= weight <= 100)
                ||| e == Error::OracleNotRegistered && !known
            }
            &&& removed is Ok <==> known
            &&& removed matches Ok((t, _)) ==> t =~= (VerifierState {
                oracles: s.oracles.insert(k, OracleEntry { active: false, ..s.oracles[k] }),
                oracle_list: t.oracle_list,
                outbox: s.outbox + seq![
                    Effect::RequireAuth(admin),
                    Effect::Emit(Event::OracleRemoved(OracleRemoved { oracle, data_type })),
                ],
                ..s
            }) && !list_at(t.oracle_list, data_type).contains(oracle)
            &&& removed is Err ==> removed == Err::<(VerifierState, ()), Error>(
                Error::OracleNotRegistered,
            )
        }),
{
    reveal(VerifierState::inv);
    let list = list_at(s.oracle_list, data_type);
    assert(list.contains(oracle) <==> s.is_active(data_type, oracle));
    lemma_filter_out(list, oracle);
}

proof fn lemma_filter_out(list: Seq<Addr>, oracle: Addr)
    ensures
        !list.filter(other_than(oracle)).contains(oracle),
    decreases list.len(),
{
    reveal(Seq::filter);
    if list.len() > 0 {
        let rest = list.drop_last();
        lemma_filter_out(rest, oracle);
        let kept = list.filter(other_than(oracle));
        if kept.contains(oracle) {
            let i = choose|i: int| 0 <= i < kept.len() && kept[i] == oracle;
            if i < rest.filter(other_than(oracle)).len() {
                assert(rest.filter(other_than(oracle))[i] == oracle);
            }
        }
    }
}

/// The settings that an administrator makes are those in force, within their
/// bounds: a least confidence of at most 100, at least one submission for a
/// median, any age.
pub proof fn law_settings(s: VerifierState, admin: Addr, n: u32, age: u64)
    requires
        s.admin == Some(admin),
    ensures
        s.set_min_confidence(admin, n) is Ok <==> n <= 100,
        s.set_min_confidence(admin, n) matches Ok((t, _)) ==> t =~= (VerifierState {
            min_confidence: Some(n),
            outbox: s.outbox + seq![
                Effect::RequireAuth(admin),
                Effect::Emit(Event::MinConfidenceUpdated(MinConfidenceUpdated { threshold: n })),
            ],
            ..s
        }),
        s.set_min_oracle_count(admin, n) is Ok <==> n >= 1,
        s.set_min_oracle_count(admin, n) matches Ok((t, _)) ==> t =~= (VerifierState {
            min_oracle_count: Some(n),
            outbox: s.outbox + seq![
                Effect::RequireAuth(admin),
                Effect::Emit(Event::MinOracleCountUpdated(MinOracleCountUpdated { min_count: n })),
            ],
            ..s
        }),
        s.set_max_data_age(admin, age) is Ok,
        s.set_max_data_age(admin, age) matches Ok((t, _)) ==> t =~= (VerifierState {
            max_data_age: Some(age),
            outbox: s.outbox + seq![
                Effect::RequireAuth(admin),
                Effect::Emit(Event::MaxDataAgeUpdated(MaxDataAgeUpdated { max_age: age })),
            ],
            ..s
        }),
{
}

/// A new verifier knows nobody and nothing, and ignores data older than seven
/// days, of whatever confidence, from a single oracle on. What is set takes the
/// place of these.
pub proof fn law_defaults(s: VerifierState)
    ensures
        ({
            let n = VerifierState::fresh();
            &&& !n.initialized && n.admin is None && n.pending_admin is None
            &&& n.oracles =~= Map::empty() && n.data_points =~= Map::empty()
            &&& n.oracle_list =~= Map::empty() && n.outbox.len() == 0
            &&& n.max_age() == 604_800 && n.confidence_floor() == 0 && n.quorum() == 1
        }),
        s.max_data_age is Some ==> s.max_age() == s.max_data_age->0,
        s.min_confidence is Some ==> s.confidence_floor() == s.min_confidence->0,
        s.min_oracle_count is Some ==> s.quorum() == s.min_oracle_count->0,
{
}

/// Data for a key is fresh enough where some submission is no older than allowed.
pub proof fn law_fresh_data(s: VerifierState, now: u64, data_type: Sym, key: Sym, max_age: u64)
    ensures
        s.freshness_error(now, data_type, key, max_age) is None <==> exists|i: int|
            0 <= i < s.points(data_type, key).len() && now <= (#[trigger] s.points(
                data_type,
                key,
            )[i]).timestamp + max_age,
        s.points(data_type, key).len() == 0 ==> s.freshness_error(now, data_type, key, max_age)
            == Some(Error::NoDataAvailable),
{
    let points = s.points(data_type, key);
    lemma_newest(points);
    if points.len() > 0 {
        let k = choose|i: int|
            0 <= i < points.len() && newest_timestamp(points) == (#[trigger] points[i]).timestamp;
        assert(points[k].timestamp == newest_timestamp(points));
    }
}

/// The verifier is set up once, by an account or a contract. Its code is replaced
/// at the administrator's word.
pub proof fn law_setup(s: VerifierState, admin: Addr, hash: [u8; 32])
    ensures
        ({
            let outcome = s.initialize(admin);
            let upgraded = s.upgrade(admin, hash);
            &&& outcome is Ok <==> !s.initialized && admin@.len() == 56 && (admin@[0] == 71
                || admin@[0] == 67)
            &&& outcome matches Ok((t, _)) ==> t =~= (VerifierState {
                initialized: true,
                admin: Some(admin),
                outbox: s.outbox + seq![
                    Effect::RequireAuth(admin),
                    Effect::Emit(Event::Initialized(Initialized { admin })),
                ],
                ..s
            })
            &&& outcome matches Err(e) ==> {
                ||| e == Error::AlreadyInitialized && s.initialized
                ||| e == Error::InvalidAddress && !s.initialized
            }
            &&& upgraded is Ok <==> s.admin == Some(admin)
            &&& upgraded matches Ok((t, _)) ==> t =~= (VerifierState {
                outbox: s.outbox + seq![Effect::RequireAuth(admin), Effect::ReplaceCode(hash)],
                ..s
            })
        }),
{
}

/// A batch touches, for each of its keys, its own oracle's reading only: what the
/// others said stays, but for the oldest where the list is full, and nothing else
/// comes in.
pub proof fn law_batches_keep_the_others(
    s: VerifierState,
    oracle: Addr,
    data_type: Sym,
    sub: OracleDataSubmission,
    p: OracleDataPoint,
)
    requires
        p.oracle != oracle,
    ensures
        ({
            let before = s.points(data_type, sub.key);
            let t = s.store_reading(oracle, data_type, sub);
            let now_points = t.points(data_type, sub.key);
            &&& now_points.contains(p) ==> before.contains(p)
            &&& before.contains(p) && (before.len() < 100 || has_slot(before, oracle))
                ==> now_points.contains(p)
            &&& has_slot(before, oracle) ==> now_points.len() == before.len()
            &&& !has_slot(before, oracle) && before.len() < 100 ==> now_points.len()
                == before.len() + 1
            &&& !has_slot(before, oracle) && before.len() >= 100 ==> now_points.len()
                == before.len() && now_points[0] == before[1]
        }),
{
    let before = s.points(data_type, sub.key);
    let q = OracleDataPoint {
        oracle,
        value: sub.value,
        confidence: sub.confidence,
        timestamp: sub.timestamp,
    };
    let all = upsert(before, q);
    assert(s.store_reading(oracle, data_type, sub).points(data_type, sub.key) == all);
    if has_slot(before, oracle) {
        lemma_has_first(before, oracle, before.len() as int);
        let k = choose|k: int| is_slot(before, oracle, k);
        assert(all == before.update(k, q));
        if before.contains(p) {
            let i = choose|i: int| 0 <= i < before.len() && before[i] == p;
            assert(all[i] == p);
        }
        if all.contains(p) {
            let i = choose|i: int| 0 <= i < all.len() && all[i] == p;
            assert(before[i] == p);
        }
    } else if before.len() < 100 {
        if before.contains(p) {
            let i = choose|i: int| 0 <= i < before.len() && before[i] == p;
            assert(all[i] == p);
        }
        if all.contains(p) {
            let i = choose|i: int| 0 <= i < all.len() && all[i] == p;
            assert(before[i] == p);
        }
    } else {
        assert(all == before.drop_first().push(q));
        if all.contains(p) {
            let i = choose|i: int| 0 <= i < all.len() && all[i] == p;
            assert(before[i + 1] == p);
        }
    }
}

/// A new administrator takes over 48 hours after being proposed, and not before;
/// nobody else does.
pub proof fn law_admin_transfer(
    s: VerifierState,
    now: u64,
    admin: Addr,
    new_admin: Addr,
    later: u64,
    who: Addr,
)
    requires
        s.initialized,
        s.propose_new_admin(now, admin, new_admin) is Ok,
    ensures
        ({
            let t = after(s, s.propose_new_admin(now, admin, new_admin));
            let outcome = t.accept_admin(later, who);
            &&& s.admin == Some(admin)
            &&& t.admin == s.admin
            &&& now + 172_800 <= u64::MAX ==> (outcome is Ok <==> who == new_admin && later >= now
                + 172_800)
            &&& t =~= (VerifierState {
                pending_admin: Some(new_admin),
                pending_admin_since: Some(now),
                outbox: s.outbox + seq![Effect::RequireAuth(admin)],
                ..s
            })
            &&& outcome matches Ok((u, _)) ==> u =~= (VerifierState {
                admin: Some(new_admin),
                pending_admin: None,
                pending_admin_since: None,
                outbox: t.outbox + seq![
                    Effect::RequireAuth(new_admin),
                    Effect::Emit(Event::AdminUpdated(AdminUpdated { new_admin })),
                ],
                ..t
            })
        }),
{
}

} // verus!
