//! What the verifier's answers mean: which readings count, what the median is of
//! them, and when a trigger is met.

use crate::oracle_verifier::median::{
    has_value, is_lower_median, is_upper_median, lemma_lower_unique, lemma_upper_unique,
    total_weight, weight_at_most,
};
use crate::oracle_verifier::state::VerifierState;
use crate::oracle_verifier::types::{Error, OracleDataPoint, TriggerComparison, TriggerCondition};
use crate::sums::{lemma_sum_by_last, sum_by};
use crate::table::list_at;
use crate::text::Sym;
use vstd::prelude::*;

verus! {

/// Whether a submission counts at `now`: its oracle is active for the data type,
/// it is no older than allowed (a week by default), and its confidence is not
/// below the least (none by default).
pub open spec fn counts(s: VerifierState, now: u64, data_type: Sym, p: OracleDataPoint) -> bool {
    &&& s.oracles.contains_key((data_type, p.oracle))
    &&& s.oracles[(data_type, p.oracle)].active
    &&& now <= p.timestamp + match s.max_data_age {
        Some(age) => age as int,
        None => 604_800,
    }
    &&& p.confidence >= match s.min_confidence {
        Some(c) => c as int,
        None => 0,
    }
}

/// The weight of the submissions that count and whose value is as `which` says.
pub open spec fn weight_where(
    s: VerifierState,
    now: u64,
    data_type: Sym,
    points: Seq<OracleDataPoint>,
    which: spec_fn(int) -> bool,
) -> int {
    sum_by(
        points,
        |p: OracleDataPoint|
            if counts(s, now, data_type, p) && which(p.value as int) {
                s.oracles[(data_type, p.oracle)].weight as int
            } else {
                0
            },
    )
}

/// How many submissions count.
pub open spec fn how_many_count(
    s: VerifierState,
    now: u64,
    data_type: Sym,
    points: Seq<OracleDataPoint>,
) -> int {
    sum_by(
        points,
        |p: OracleDataPoint|
            if counts(s, now, data_type, p) {
                1int
            } else {
                0
            },
    )
}

/// The readings made of submissions weigh what the submissions that count weigh.
proof fn lemma_readings(
    s: VerifierState,
    now: u64,
    data_type: Sym,
    points: Seq<OracleDataPoint>,
    x: i128,
)
    ensures
        ({
            let e = points.filter_map(s.contributes(now, data_type));
            &&& total_weight(e) == weight_where(s, now, data_type, points, |v: int| true)
            &&& weight_at_most(e, x) == weight_where(s, now, data_type, points, |v: int| v <= x)
            &&& e.len() == how_many_count(s, now, data_type, points)
            &&& has_value(e, x) <==> exists|i: int|
                0 <= i < points.len() && counts(s, now, data_type, #[trigger] points[i])
                    && points[i].value == x
            &&& forall|k: int| 0 <= k < e.len() ==> has_value(e, #[trigger] e[k].0)
        }),
    decreases points.len(),
{
    let f = s.contributes(now, data_type);
    let e = points.filter_map(f);
    if points.len() > 0 {
        let rest = points.drop_last();
        let p = points.last();
        lemma_readings(s, now, data_type, rest, x);
        let r = rest.filter_map(f);
        lemma_sum_by_last(
            points,
            |p: OracleDataPoint|
                if counts(s, now, data_type, p) && (|v: int| true)(p.value as int) {
                    s.oracles[(data_type, p.oracle)].weight as int
                } else {
                    0
                },
        );
        lemma_sum_by_last(
            points,
            |p: OracleDataPoint|
                if counts(s, now, data_type, p) && (|v: int| v <= x)(p.value as int) {
                    s.oracles[(data_type, p.oracle)].weight as int
                } else {
                    0
                },
        );
        lemma_sum_by_last(
            points,
            |p: OracleDataPoint|
                if counts(s, now, data_type, p) {
                    1int
                } else {
                    0
                },
        );
        assert(counts(s, now, data_type, p) <==> f(p) is Some);
        if counts(s, now, data_type, p) {
            assert(e =~= r.push(f(p)->0));
            assert(e.drop_last() =~= r);
            assert(has_value(e, x) <==> has_value(r, x) || p.value == x) by {
                if has_value(r, x) {
                    let i = choose|i: int| 0 <= i < r.len() && (#[trigger] r[i]).0 == x;
                    assert(e[i].0 == x);
                }
                if p.value == x {
                    assert(e[r.len() as int].0 == x);
                }
                if has_value(e, x) {
                    let i = choose|i: int| 0 <= i < e.len() && (#[trigger] e[i]).0 == x;
                    if i < r.len() {
                        assert(r[i].0 == x);
                    }
                }
            }
        } else {
            assert(e == r);
        }
        assert((exists|i: int|
            0 <= i < points.len() && counts(s, now, data_type, #[trigger] points[i])
                && points[i].value == x) <==> (exists|i: int|
            0 <= i < rest.len() && counts(s, now, data_type, #[trigger] rest[i]) && rest[i].value
                == x) || (counts(s, now, data_type, p) && p.value == x)) by {
            if exists|i: int|
                0 <= i < rest.len() && counts(s, now, data_type, #[trigger] rest[i])
                    && rest[i].value == x {
                let i = choose|i: int|
                    0 <= i < rest.len() && counts(s, now, data_type, #[trigger] rest[i])
                        && rest[i].value == x;
                assert(points[i] == rest[i]);
            }
            if counts(s, now, data_type, p) && p.value == x {
                assert(points[points.len() - 1] == p);
            }
            if exists|i: int|
                0 <= i < points.len() && counts(s, now, data_type, #[trigger] points[i])
                    && points[i].value == x {
                let i = choose|i: int|
                    0 <= i < points.len() && counts(s, now, data_type, #[trigger] points[i])
                        && points[i].value == x;
                if i < rest.len() {
                    assert(rest[i] == points[i]);
                }
            }
        }
    }
}

/// Weights of disjoint kinds of submissions add up, and none is below zero.
proof fn lemma_weights(
    s: VerifierState,
    now: u64,
    data_type: Sym,
    points: Seq<OracleDataPoint>,
    a: spec_fn(int) -> bool,
    b: spec_fn(int) -> bool,
    c: spec_fn(int) -> bool,
)
    requires
        forall|v: int| !(#[trigger] a(v) && b(v)),
        forall|v: int| #[trigger] c(v) <== a(v) || b(v),
    ensures
        weight_where(s, now, data_type, points, a) >= 0,
        weight_where(s, now, data_type, points, a) + weight_where(s, now, data_type, points, b)
            <= weight_where(s, now, data_type, points, c),
        (forall|v: int| #[trigger] c(v) ==> a(v) || b(v)) ==> weight_where(
            s,
            now,
            data_type,
            points,
            a,
        ) + weight_where(s, now, data_type, points, b) == weight_where(
            s,
            now,
            data_type,
            points,
            c,
        ),
    decreases points.len(),
{
    if points.len() > 0 {
        lemma_weights(s, now, data_type, points.drop_last(), a, b, c);
        lemma_sum_by_last(
            points,
            |p: OracleDataPoint|
                if counts(s, now, data_type, p) && a(p.value as int) {
                    s.oracles[(data_type, p.oracle)].weight as int
                } else {
                    0
                },
        );
        lemma_sum_by_last(
            points,
            |p: OracleDataPoint|
                if counts(s, now, data_type, p) && b(p.value as int) {
                    s.oracles[(data_type, p.oracle)].weight as int
                } else {
                    0
                },
        );
        lemma_sum_by_last(
            points,
            |p: OracleDataPoint|
                if counts(s, now, data_type, p) && c(p.value as int) {
                    s.oracles[(data_type, p.oracle)].weight as int
                } else {
                    0
                },
        );
        let v = points.last().value as int;
        assert(!(a(v) && b(v)));
        assert(c(v) <== a(v) || b(v));
    }
}

/// A submission that counts and is as `which` says has some weight.
proof fn lemma_some_weight(
    s: VerifierState,
    now: u64,
    data_type: Sym,
    points: Seq<OracleDataPoint>,
    which: spec_fn(int) -> bool,
    i: int,
)
    requires
        s.wf(),
        0 <= i < points.len(),
        counts(s, now, data_type, points[i]),
        which(points[i].value as int),
    ensures
        weight_where(s, now, data_type, points, which) > 0,
    decreases points.len(),
{
    lemma_sum_by_last(
        points,
        |p: OracleDataPoint|
            if counts(s, now, data_type, p) && which(p.value as int) {
                s.oracles[(data_type, p.oracle)].weight as int
            } else {
                0
            },
    );
    let none = |v: int| false;
    lemma_weights(s, now, data_type, points.drop_last(), which, none, which);
    assert(s.oracles[(data_type, points[i].oracle)].weight >= 1);
    if i < points.len() - 1 {
        lemma_some_weight(s, now, data_type, points.drop_last(), which, i);
    }
}

/// There is a median exactly where at least one submission counts, and as many
/// as are asked for (one by default).
pub proof fn law_when_there_is_a_median(s: VerifierState, now: u64, data_type: Sym, key: Sym)
    requires
        s.inv(),
    ensures
        s.has_median(now, data_type, key) <==> {
            let n = how_many_count(s, now, data_type, s.points(data_type, key));
            n >= 1 && n >= match s.min_oracle_count {
                Some(c) => c as int,
                None => 1,
            }
        },
{
    reveal(VerifierState::inv);
    let points = s.points(data_type, key);
    assert(list_at(s.data_points, (data_type, key)).len() <= 100);
    assert(points.take(points.len() as int) =~= points);
    lemma_readings(s, now, data_type, points, 0);
}

/// The median is the value with less than half of the weight on either side, all
/// told of the submissions that count.
pub proof fn law_median_is_in_the_middle(
    s: VerifierState,
    now: u64,
    data_type: Sym,
    key: Sym,
    i: int,
)
    requires
        s.inv(),
        0 <= i < s.points(data_type, key).len(),
        counts(s, now, data_type, s.points(data_type, key)[i]),
        ({
            let points = s.points(data_type, key);
            let x = points[i].value as int;
            let total = weight_where(s, now, data_type, points, |v: int| true);
            &&& 2 * weight_where(s, now, data_type, points, |v: int| v < x) < total
            &&& 2 * weight_where(s, now, data_type, points, |v: int| v > x) < total
        }),
    ensures
        s.median(now, data_type, key) == s.points(data_type, key)[i].value,
{
    reveal(VerifierState::inv);
    let points = s.points(data_type, key);
    assert(list_at(s.data_points, (data_type, key)).len() <= 100);
    assert(points.take(points.len() as int) =~= points);
    let e = s.eligible(now, data_type, key);
    let x = points[i].value;
    let all = |v: int| true;
    let below = |v: int| v < x;
    let above = |v: int| v > x;
    let upto = |v: int| v <= x;
    assert(forall|v: int| !(#[trigger] upto(v) && above(v)));
    lemma_weights(s, now, data_type, points, upto, above, all);
    lemma_readings(s, now, data_type, points, x);
    assert(2 * weight_at_most(e, x) > total_weight(e));
    assert forall|k: int| 0 <= k < e.len() && (#[trigger] e[k]).0 < x implies 2 * weight_at_most(
        e,
        e[k].0,
    ) < total_weight(e) by {
        let y = e[k].0;
        let upto_y = |v: int| v <= y;
        let rest = |v: int| y < v < x;
        assert(forall|v: int| !(#[trigger] upto_y(v) && rest(v)));
        lemma_weights(s, now, data_type, points, upto_y, rest, below);
        lemma_weights(s, now, data_type, points, rest, upto_y, below);
        lemma_readings(s, now, data_type, points, y);
    }
    assert(is_lower_median(e, x));
    assert(is_upper_median(e, x));
    lemma_lower_unique(e, x);
    lemma_upper_unique(e, x);
}

/// Where two values split the weight of the submissions that count in exact
/// halves, the median is halfway between them, rounded toward zero.
pub proof fn law_median_between_halves(
    s: VerifierState,
    now: u64,
    data_type: Sym,
    key: Sym,
    i: int,
    j: int,
)
    requires
        s.inv(),
        0 <= i < s.points(data_type, key).len(),
        0 <= j < s.points(data_type, key).len(),
        counts(s, now, data_type, s.points(data_type, key)[i]),
        counts(s, now, data_type, s.points(data_type, key)[j]),
        s.points(data_type, key)[i].value < s.points(data_type, key)[j].value,
        ({
            let points = s.points(data_type, key);
            let (l, u) = (points[i].value as int, points[j].value as int);
            let total = weight_where(s, now, data_type, points, |v: int| true);
            &&& 2 * weight_where(s, now, data_type, points, |v: int| v <= l) == total
            &&& 2 * weight_where(s, now, data_type, points, |v: int| v >= u) == total
        }),
    ensures
        ({
            let m = s.median(now, data_type, key);
            let both = s.points(data_type, key)[i].value + s.points(data_type, key)[j].value;
            &&& both >= 0 ==> 2 * m <= both <= 2 * m + 1
            &&& both <= 0 ==> 2 * m - 1 <= both <= 2 * m
        }),
{
    reveal(VerifierState::inv);
    let points = s.points(data_type, key);
    assert(list_at(s.data_points, (data_type, key)).len() <= 100);
    assert(points.take(points.len() as int) =~= points);
    let e = s.eligible(now, data_type, key);
    let (l, u) = (points[i].value, points[j].value);
    let all = |v: int| true;
    let upto_l = |v: int| v <= l;
    let from_u = |v: int| v >= u;
    lemma_readings(s, now, data_type, points, l);
    lemma_readings(s, now, data_type, points, u);
    // no value lies in between
    assert forall|k: int| 0 <= k < e.len() implies (#[trigger] e[k]).0 <= l || e[k].0 >= u by {
        let y = e[k].0;
        if l < y < u {
            lemma_readings(s, now, data_type, points, y);
            assert(has_value(e, e[k].0));
            let n = choose|n: int|
                0 <= n < points.len() && counts(s, now, data_type, #[trigger] points[n])
                    && points[n].value == y;
            let at_y = |v: int| v == y;
            let outside = |v: int| v <= l || v >= u;
            assert(forall|v: int| !(#[trigger] upto_l(v) && from_u(v)));
            lemma_weights(s, now, data_type, points, upto_l, from_u, outside);
            assert(forall|v: int| !(#[trigger] at_y(v) && outside(v)));
            lemma_weights(s, now, data_type, points, at_y, outside, all);
            lemma_some_weight(s, now, data_type, points, at_y, n);
        }
    }
    // below `l` lies less than half
    assert forall|k: int| 0 <= k < e.len() && (#[trigger] e[k]).0 < l implies 2 * weight_at_most(
        e,
        e[k].0,
    ) < total_weight(e) by {
        let y = e[k].0;
        let upto_y = |v: int| v <= y;
        let rest = |v: int| y < v <= l;
        assert(forall|v: int| !(#[trigger] upto_y(v) && rest(v)));
        lemma_weights(s, now, data_type, points, upto_y, rest, upto_l);
        lemma_some_weight(s, now, data_type, points, rest, i);
        lemma_readings(s, now, data_type, points, y);
    }
    // up to `u` lies more than half
    let upto_u = |v: int| v <= u;
    let rest = |v: int| l < v <= u;
    assert(forall|v: int| !(#[trigger] upto_l(v) && rest(v)));
    lemma_weights(s, now, data_type, points, upto_l, rest, upto_u);
    lemma_some_weight(s, now, data_type, points, rest, j);
    assert forall|k: int|
        0 <= k < e.len() && 2 * weight_at_most(e, (#[trigger] e[k]).0) > total_weight(
            e,
        ) implies u <= e[k].0 by {
        if e[k].0 < u {
            assert(e[k].0 <= l);
        }
    }
    assert(is_lower_median(e, l));
    assert(is_upper_median(e, u));
    lemma_lower_unique(e, l);
    lemma_upper_unique(e, u);
}

/// A trigger is met where the median is below, above or at the threshold, as the
/// comparison says: of the three, exactly one holds. With a tolerance it is met
/// where the two are no further apart than that.
pub proof fn law_trigger_verdicts(
    s: VerifierState,
    now: u64,
    data_type: Sym,
    key: Sym,
    condition: TriggerCondition,
    other: TriggerCondition,
    third: TriggerCondition,
)
    requires
        s.has_median(now, data_type, key),
        other.threshold == condition.threshold,
        third.threshold == condition.threshold,
    ensures
        ({
            let m = s.median(now, data_type, key);
            let verdict = s.verify_trigger(now, data_type, key, condition);
            &&& verdict is Ok
            &&& condition.comparison == TriggerComparison::LessThan ==> (verdict == Ok::<
                bool,
                Error,
            >(true) <==> m < condition.threshold)
            &&& condition.comparison == TriggerComparison::GreaterThan ==> (verdict == Ok::<
                bool,
                Error,
            >(true) <==> m > condition.threshold)
            &&& condition.comparison == TriggerComparison::Equal ==> (verdict == Ok::<bool, Error>(
                true,
            ) <==> m == condition.threshold)
            &&& condition.comparison == TriggerComparison::EqualWithTolerance && i128::MIN <= m
                - condition.threshold <= i128::MAX ==> (verdict == Ok::<bool, Error>(true)
                <==> condition.threshold - condition.tolerance <= m <= condition.threshold
                + condition.tolerance)
            &&& condition.comparison == TriggerComparison::LessThan && other.comparison
                == TriggerComparison::GreaterThan && third.comparison == TriggerComparison::Equal
                ==> {
                let held = |v: Result<bool, Error>|
                    if v == Ok::<bool, Error>(true) {
                        1int
                    } else {
                        0
                    };
                held(verdict) + held(s.verify_trigger(now, data_type, key, other)) + held(
                    s.verify_trigger(now, data_type, key, third),
                ) == 1
            }
        }),
{
}

/// On fresh data a trigger is met in the same cases: above the threshold, below
/// it or at it, as the comparison says. It is decided exactly where some
/// submission is fresh enough and there is a median.
pub proof fn law_fresh_verdicts(
    s: VerifierState,
    now: u64,
    data_type: Sym,
    key: Sym,
    condition: TriggerCondition,
    max_age: u64,
)
    ensures
        ({
            let m = s.median(now, data_type, key);
            let outcome = s.verify_trigger_fresh(now, data_type, key, condition, max_age);
            &&& outcome is Ok <==> s.has_median(now, data_type, key) && s.freshness_error(
                now,
                data_type,
                key,
                max_age,
            ) is None
            &&& outcome matches Ok((_, verdict)) ==> {
                &&& condition.comparison == TriggerComparison::LessThan ==> (verdict <==> m
                    < condition.threshold)
                &&& condition.comparison == TriggerComparison::GreaterThan ==> (verdict <==> m
                    > condition.threshold)
                &&& condition.comparison == TriggerComparison::Equal ==> (verdict <==> m
                    == condition.threshold)
                &&& s.verify_trigger(now, data_type, key, condition) == Ok::<bool, Error>(verdict)
            }
        }),
{
}

/// Without a median no trigger is verified: there is no data.
pub proof fn law_no_verdict_without_data(
    s: VerifierState,
    now: u64,
    data_type: Sym,
    key: Sym,
    condition: TriggerCondition,
    max_age: u64,
)
    requires
        !s.has_median(now, data_type, key),
    ensures
        s.verify_trigger(now, data_type, key, condition) == Err::<bool, Error>(
            Error::NoDataAvailable,
        ),
        s.verify_trigger_fresh(now, data_type, key, condition, max_age) is Err,
{
}

} // verus!
