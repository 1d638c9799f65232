//! The weighted median.
//!
//! A reading is a value with a positive weight. The lower median is the least
//! value at or below which at least half of the weight lies, the upper median
//! the least one at or below which more than half of it lies; the median is
//! halfway between the two.

use crate::arith::{fits_i128, quotient, trunc_div};
use vstd::prelude::*;

verus! {

/// A value and its weight.
pub type Reading = (i128, u32);

/// The weight of all readings together.
pub open spec fn total_weight(s: Seq<Reading>) -> nat
    decreases s.len(),
{
    if s.len() == 0 {
        0
    } else {
        total_weight(s.drop_last()) + s.last().1 as nat
    }
}

/// The weight of the readings whose value is at most `x`.
pub open spec fn weight_at_most(s: Seq<Reading>, x: i128) -> nat
    decreases s.len(),
{
    if s.len() == 0 {
        0
    } else {
        weight_at_most(s.drop_last(), x) + if s.last().0 <= x {
            s.last().1 as nat
        } else {
            0
        }
    }
}

/// Whether some reading has the value `x`.
pub open spec fn has_value(s: Seq<Reading>, x: i128) -> bool {
    exists|i: int| 0 <= i < s.len() && (#[trigger] s[i]).0 == x
}

/// Whether `x` is the least value with at least half of the weight at or below.
pub open spec fn is_lower_median(s: Seq<Reading>, x: i128) -> bool {
    &&& has_value(s, x)
    &&& 2 * weight_at_most(s, x) >= total_weight(s)
    &&& forall|i: int|
        0 <= i < s.len() && 2 * weight_at_most(s, (#[trigger] s[i]).0) >= total_weight(s) ==> x
            <= s[i].0
}

/// Whether `x` is the least value with more than half of the weight at or below.
pub open spec fn is_upper_median(s: Seq<Reading>, x: i128) -> bool {
    &&& has_value(s, x)
    &&& 2 * weight_at_most(s, x) > total_weight(s)
    &&& forall|i: int|
        0 <= i < s.len() && 2 * weight_at_most(s, (#[trigger] s[i]).0) > total_weight(s) ==> x
            <= s[i].0
}

pub open spec fn lower_median(s: Seq<Reading>) -> i128 {
    choose|x: i128| is_lower_median(s, x)
}

pub open spec fn upper_median(s: Seq<Reading>) -> i128 {
    choose|x: i128| is_upper_median(s, x)
}

/// The weighted median: halfway between the lower and the upper median,
/// rounded toward zero.
pub open spec fn weighted_median(s: Seq<Reading>) -> int {
    trunc_div(lower_median(s) + upper_median(s), 2)
}

/// Whether the two middle values can be added up.
pub open spec fn median_fits(s: Seq<Reading>) -> bool {
    lower_median(s) == upper_median(s) || fits_i128(lower_median(s) + upper_median(s))
}

/// Whether every weight is positive.
pub open spec fn positive_weights(s: Seq<Reading>) -> bool {
    forall|i: int| 0 <= i < s.len() ==> (#[trigger] s[i]).1 > 0
}

/// Whether the values never decrease.
pub open spec fn sorted(s: Seq<Reading>) -> bool {
    forall|i: int, j: int| 0 <= i <= j < s.len() ==> (#[trigger] s[i]).0 <= (#[trigger] s[j]).0
}

/// There is only one lower median.
pub proof fn lemma_lower_unique(s: Seq<Reading>, x: i128)
    requires
        is_lower_median(s, x),
    ensures
        lower_median(s) == x,
{
    let y = lower_median(s);
    assert(is_lower_median(s, y));
    let i = choose|i: int| 0 <= i < s.len() && (#[trigger] s[i]).0 == x;
    let j = choose|j: int| 0 <= j < s.len() && (#[trigger] s[j]).0 == y;
    assert(s[i].0 == x && s[j].0 == y);
}

/// There is only one upper median.
pub proof fn lemma_upper_unique(s: Seq<Reading>, x: i128)
    requires
        is_upper_median(s, x),
    ensures
        upper_median(s) == x,
{
    let y = upper_median(s);
    assert(is_upper_median(s, y));
    let i = choose|i: int| 0 <= i < s.len() && (#[trigger] s[i]).0 == x;
    let j = choose|j: int| 0 <= j < s.len() && (#[trigger] s[j]).0 == y;
    assert(s[i].0 == x && s[j].0 == y);
}

/// Inserting a reading adds its weight, wherever it goes.
proof fn lemma_insert(s: Seq<Reading>, i: int, r: Reading)
    requires
        0 <= i <= s.len(),
    ensures
        total_weight(s.insert(i, r)) == total_weight(s) + r.1,
        forall|x: i128|
            #[trigger] weight_at_most(s.insert(i, r), x) == weight_at_most(s, x) + if r.0 <= x {
                r.1 as nat
            } else {
                0
            },
    decreases s.len(),
{
    let t = s.insert(i, r);
    if i == s.len() {
        assert(t.drop_last() =~= s);
        assert(t.last() == r);
    } else {
        assert(t.drop_last() =~= s.drop_last().insert(i, r));
        assert(t.last() == s.last());
        lemma_insert(s.drop_last(), i, r);
        assert forall|x: i128|
            #[trigger] weight_at_most(t, x) == weight_at_most(s, x) + if r.0 <= x {
                r.1 as nat
            } else {
                0
            } by {
            assert(weight_at_most(t.drop_last(), x) == weight_at_most(
                s.drop_last().insert(i, r),
                x,
            ));
        }
    }
}

/// The readings at or below `x` weigh no more than all of them.
pub proof fn lemma_at_most_total(s: Seq<Reading>, x: i128)
    ensures
        weight_at_most(s, x) <= total_weight(s),
    decreases s.len(),
{
    if s.len() > 0 {
        lemma_at_most_total(s.drop_last(), x);
    }
}

/// In a sorted list the first `k` readings all count toward the weight at or
/// below the last of them.
proof fn lemma_prefix_below(s: Seq<Reading>, k: int, x: i128)
    requires
        0 <= k <= s.len(),
        forall|i: int| 0 <= i < k ==> (#[trigger] s[i]).0 <= x,
    ensures
        total_weight(s.take(k)) <= weight_at_most(s, x),
    decreases s.len(),
{
    if s.len() > 0 {
        if k == s.len() {
            assert(s.take(k) =~= s);
            lemma_prefix_below(s.drop_last(), k - 1, x);
            assert(s.drop_last().take(k - 1) =~= s.drop_last());
            assert(s[k - 1] == s.last());
        } else {
            assert(s.drop_last().take(k) =~= s.take(k));
            lemma_prefix_below(s.drop_last(), k, x);
        }
    }
}

/// Where all readings from position `k` on are above `x`, only the first `k`
/// count toward the weight at or below `x`.
proof fn lemma_rest_above(s: Seq<Reading>, k: int, x: i128)
    requires
        0 <= k <= s.len(),
        forall|i: int| k <= i < s.len() ==> (#[trigger] s[i]).0 > x,
    ensures
        weight_at_most(s, x) <= total_weight(s.take(k)),
    decreases s.len(),
{
    if k == s.len() {
        assert(s.take(k) =~= s);
        lemma_at_most_total(s, x);
    } else {
        assert(s[s.len() - 1] == s.last());
        assert(s.drop_last().take(k) =~= s.take(k));
        lemma_rest_above(s.drop_last(), k, x);
    }
}

proof fn lemma_take_step(s: Seq<Reading>, k: int)
    requires
        0 <= k < s.len(),
    ensures
        total_weight(s.take(k + 1)) == total_weight(s.take(k)) + s[k].1,
{
    assert(s.take(k + 1).drop_last() =~= s.take(k));
}

/// In a sorted list, the reading at which half of the weight is first reached
/// has the lower median; the upper median is the same value, or that of the
/// next reading where exactly half of the weight was reached.
proof fn lemma_middle(s: Seq<Reading>, k: int)
    requires
        sorted(s),
        positive_weights(s),
        0 <= k < s.len(),
        2 * total_weight(s.take(k)) < total_weight(s),
        2 * total_weight(s.take(k + 1)) >= total_weight(s),
    ensures
        is_lower_median(s, s[k].0),
        2 * total_weight(s.take(k + 1)) > total_weight(s) ==> is_upper_median(s, s[k].0),
        2 * total_weight(s.take(k + 1)) == total_weight(s) ==> k + 1 < s.len() && is_upper_median(
            s,
            s[k + 1].0,
        ),
{
    let x = s[k].0;
    lemma_prefix_below(s, k + 1, x);
    assert forall|i: int|
        0 <= i < s.len() && 2 * weight_at_most(s, (#[trigger] s[i]).0) >= total_weight(
            s,
        ) implies x <= s[i].0 by {
        if s[i].0 < x {
            lemma_rest_above(s, k, s[i].0);
        }
    }
    if 2 * total_weight(s.take(k + 1)) == total_weight(s) {
        if k + 1 == s.len() {
            assert(s.take(k + 1) =~= s);
            lemma_take_step(s, k);
        }
        let y = s[k + 1].0;
        lemma_prefix_below(s, k + 2, y);
        lemma_take_step(s, k + 1);
        assert forall|i: int|
            0 <= i < s.len() && 2 * weight_at_most(s, (#[trigger] s[i]).0) > total_weight(
                s,
            ) implies y <= s[i].0 by {
            if s[i].0 < y {
                lemma_rest_above(s, k + 1, s[i].0);
            }
        }
    }
}

/// The medians depend only on which values occur and how much weight lies at
/// or below each.
pub proof fn lemma_same_median(s: Seq<Reading>, t: Seq<Reading>)
    requires
        total_weight(s) == total_weight(t),
        forall|x: i128| #[trigger] weight_at_most(s, x) == weight_at_most(t, x),
        forall|x: i128| #[trigger] has_value(s, x) <==> has_value(t, x),
    ensures
        forall|x: i128| is_lower_median(s, x) <==> is_lower_median(t, x),
        forall|x: i128| is_upper_median(s, x) <==> is_upper_median(t, x),
{
    lemma_same_median_one_way(s, t);
    lemma_same_median_one_way(t, s);
}

proof fn lemma_same_median_one_way(s: Seq<Reading>, t: Seq<Reading>)
    requires
        total_weight(s) == total_weight(t),
        forall|x: i128| #[trigger] weight_at_most(s, x) == weight_at_most(t, x),
        forall|x: i128| #[trigger] has_value(s, x) <==> has_value(t, x),
    ensures
        forall|x: i128| is_lower_median(s, x) ==> is_lower_median(t, x),
        forall|x: i128| is_upper_median(s, x) ==> is_upper_median(t, x),
{
    assert forall|x: i128| is_lower_median(s, x) implies is_lower_median(t, x) by {
        assert(has_value(s, x));
        assert(weight_at_most(s, x) == weight_at_most(t, x));
        assert forall|i: int|
            0 <= i < t.len() && 2 * weight_at_most(t, (#[trigger] t[i]).0) >= total_weight(
                t,
            ) implies x <= t[i].0 by {
            assert(has_value(t, t[i].0));
            assert(has_value(s, t[i].0));
            let j = choose|j: int| 0 <= j < s.len() && (#[trigger] s[j]).0 == t[i].0;
            assert(weight_at_most(s, s[j].0) == weight_at_most(t, t[i].0));
        }
    }
    assert forall|x: i128| is_upper_median(s, x) implies is_upper_median(t, x) by {
        assert(has_value(s, x));
        assert(weight_at_most(s, x) == weight_at_most(t, x));
        assert forall|i: int|
            0 <= i < t.len() && 2 * weight_at_most(t, (#[trigger] t[i]).0) > total_weight(
                t,
            ) implies x <= t[i].0 by {
            assert(has_value(t, t[i].0));
            assert(has_value(s, t[i].0));
            let j = choose|j: int| 0 <= j < s.len() && (#[trigger] s[j]).0 == t[i].0;
            assert(weight_at_most(s, s[j].0) == weight_at_most(t, t[i].0));
        }
    }
}

/// Whether `t` holds the readings of `s`, as far as medians are concerned.
spec fn same_readings(s: Seq<Reading>, t: Seq<Reading>) -> bool {
    &&& s.len() == t.len()
    &&& total_weight(s) == total_weight(t)
    &&& forall|x: i128| #[trigger] weight_at_most(s, x) == weight_at_most(t, x)
    &&& forall|x: i128| #[trigger] has_value(s, x) <==> has_value(t, x)
}

proof fn lemma_same_grow(s: Seq<Reading>, t: Seq<Reading>, i: int, r: Reading)
    requires
        same_readings(s, t),
        0 <= i <= t.len(),
    ensures
        same_readings(s.push(r), t.insert(i, r)),
{
    lemma_insert(t, i, r);
    assert(s.push(r).drop_last() =~= s);
    assert forall|x: i128|
        #[trigger] weight_at_most(s.push(r), x) == weight_at_most(t.insert(i, r), x) by {
        assert(weight_at_most(s, x) == weight_at_most(t, x));
    }
    assert forall|x: i128| #[trigger] has_value(s.push(r), x) <==> has_value(t.insert(i, r), x) by {
        if has_value(s.push(r), x) {
            let k = choose|k: int| 0 <= k < s.push(r).len() && (#[trigger] s.push(r)[k]).0 == x;
            if k == s.len() {
                assert(t.insert(i, r)[i].0 == x);
            } else {
                assert(s[k].0 == x);
                assert(has_value(s, x));
                let m = choose|m: int| 0 <= m < t.len() && (#[trigger] t[m]).0 == x;
                assert(t.insert(i, r)[if m < i {
                    m
                } else {
                    m + 1
                }].0 == x);
            }
        }
        if has_value(t.insert(i, r), x) {
            let m = choose|m: int|
                0 <= m < t.insert(i, r).len() && (#[trigger] t.insert(i, r)[m]).0 == x;
            if m == i {
                assert(s.push(r)[s.len() as int].0 == x);
            } else {
                assert(t[if m < i {
                    m
                } else {
                    m - 1
                }].0 == x);
                assert(has_value(t, x));
                assert(has_value(s, x));
                let k = choose|k: int| 0 <= k < s.len() && (#[trigger] s[k]).0 == x;
                assert(s.push(r)[k].0 == x);
            }
        }
    }
}

/// The readings in order of value.
fn sort_readings(readings: &Vec<Reading>) -> (r: Vec<Reading>)
    requires
        positive_weights(readings@),
    ensures
        sorted(r@),
        positive_weights(r@),
        same_readings(readings@, r@),
{
    let mut out: Vec<Reading> = Vec::new();
    let mut i: usize = 0;
    assert(readings@.take(0) =~= out@);
    while i < readings.len()
        invariant
            i <= readings@.len(),
            positive_weights(readings@),
            sorted(out@),
            positive_weights(out@),
            same_readings(readings@.take(i as int), out@),
        decreases readings.len() - i,
    {
        let r = readings[i];
        let mut at: usize = out.len();
        while at > 0 && out[at - 1].0 > r.0
            invariant
                at <= out@.len(),
                forall|j: int| at <= j < out@.len() ==> (#[trigger] out@[j]).0 > r.0,
            decreases at,
        {
            at = at - 1;
        }
        proof {
            lemma_same_grow(readings@.take(i as int), out@, at as int, r);
            assert(readings@.take(i as int).push(r) =~= readings@.take(i + 1));
        }
        out.insert(at, r);
        i += 1;
    }
    assert(readings@.take(i as int) =~= readings@);
    out
}

/// A list with positive weights weighs at least its length.
proof fn lemma_total_positive(s: Seq<Reading>)
    requires
        positive_weights(s),
    ensures
        total_weight(s) >= s.len(),
    decreases s.len(),
{
    if s.len() > 0 {
        assert(s[s.len() - 1].1 > 0);
        assert forall|i: int| 0 <= i < s.drop_last().len() implies (
        #[trigger] s.drop_last()[i]).1 > 0 by {
            assert(s[i].1 > 0);
        }
        lemma_total_positive(s.drop_last());
    }
}

/// Part of a list weighs no more than the whole.
proof fn lemma_take_total(s: Seq<Reading>, k: int)
    requires
        0 <= k <= s.len(),
    ensures
        total_weight(s.take(k)) <= total_weight(s),
    decreases s.len(),
{
    if k == s.len() {
        assert(s.take(k) =~= s);
    } else {
        assert(s.drop_last().take(k) =~= s.take(k));
        lemma_take_total(s.drop_last(), k);
    }
}

/// The lower and the upper median of readings, of which there is at least one.
pub fn middle_values(readings: &Vec<Reading>) -> (r: (i128, i128))
    requires
        readings@.len() > 0,
        positive_weights(readings@),
        total_weight(readings@) <= u32::MAX,
    ensures
        is_lower_median(readings@, r.0),
        is_upper_median(readings@, r.1),
        r.0 == lower_median(readings@),
        r.1 == upper_median(readings@),
{
    let sorted_readings = sort_readings(readings);
    let ghost s = sorted_readings@;
    let mut weight: u32 = 0;
    let mut i: usize = 0;
    assert(s.take(0) =~= Seq::<Reading>::empty());
    while i < sorted_readings.len()
        invariant
            i <= s.len(),
            s == sorted_readings@,
            weight == total_weight(s.take(i as int)),
            total_weight(s) <= u32::MAX,
        decreases sorted_readings.len() - i,
    {
        proof {
            lemma_take_step(s, i as int);
            lemma_take_total(s, i + 1);
        }
        weight = weight + sorted_readings[i].1;
        i += 1;
    }
    assert(s.take(i as int) =~= s);
    proof {
        lemma_total_positive(s);
    }
    let half: u32 = weight / 2;
    let mut cumulative: u32 = 0;
    let mut k: usize = 0;
    let mut found: Option<(i128, i128)> = None;
    while found.is_none()
        invariant
            s == sorted_readings@,
            s.len() > 0,
            sorted(s),
            positive_weights(s),
            weight == total_weight(s) > 0,
            half == weight / 2,
            k <= s.len(),
            cumulative == total_weight(s.take(k as int)),
            found is None ==> 2 * cumulative < weight,
            found matches Some(m) ==> is_lower_median(s, m.0) && is_upper_median(s, m.1),
        decreases s.len() - k + if found is None {
            1int
        } else {
            0
        },
    {
        proof {
            if k == s.len() {
                assert(s.take(k as int) =~= s);
            }
            lemma_take_step(s, k as int);
            lemma_take_total(s, k + 1);
        }
        let r = sorted_readings[k];
        cumulative = cumulative + r.1;
        if cumulative > half {
            proof {
                lemma_middle(s, k as int);
            }
            found = Some((r.0, r.0));
        } else if cumulative == half && weight % 2 == 0 {
            proof {
                lemma_middle(s, k as int);
            }
            found = Some((r.0, sorted_readings[k + 1].0));
        }
        k += 1;
    }
    let m = match found {
        Some(m) => m,
        None => (0, 0),
    };
    proof {
        lemma_same_median(readings@, s);
        lemma_lower_unique(readings@, m.0);
        lemma_upper_unique(readings@, m.1);
    }
    m
}

/// The weighted median of readings, of which there is at least one.
pub fn median_of(readings: &Vec<Reading>) -> (r: i128)
    requires
        readings@.len() > 0,
        positive_weights(readings@),
        total_weight(readings@) <= u32::MAX,
        median_fits(readings@),
    ensures
        r == weighted_median(readings@),
{
    let (lower, upper) = middle_values(readings);
    if lower == upper {
        lower
    } else {
        quotient(lower + upper, 2)
    }
}

} // verus!
