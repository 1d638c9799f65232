//! The values of a list or of a finite map added up.

use vstd::prelude::*;

verus! {

/// The values of a map added up; nothing where the map is not finite.
pub open spec fn total<K>(m: Map<K, int>) -> int
    decreases m.dom().len(),
{
    if m.dom().finite() && m.dom().len() > 0 {
        let k = m.dom().choose();
        m[k] + total(m.remove(k))
    } else {
        0
    }
}

/// Taking one value out lowers the sum by it.
pub proof fn lemma_total_remove<K>(m: Map<K, int>, k: K)
    requires
        m.dom().finite(),
        m.contains_key(k),
    ensures
        total(m) == m[k] + total(m.remove(k)),
        m.remove(k).dom().finite(),
    decreases m.dom().len(),
{
    let c = m.dom().choose();
    assert(m.dom().contains(k));
    assert(m.dom().contains(c));
    if c != k {
        lemma_total_remove(m.remove(c), k);
        lemma_total_remove(m.remove(k), c);
        assert(m.remove(c).remove(k) =~= m.remove(k).remove(c));
    }
}

/// Adding one value raises the sum by it.
pub proof fn lemma_total_insert<K>(m: Map<K, int>, k: K, v: int)
    requires
        m.dom().finite(),
        !m.contains_key(k),
    ensures
        total(m.insert(k, v)) == total(m) + v,
        m.insert(k, v).dom().finite(),
{
    lemma_total_remove(m.insert(k, v), k);
    assert(m.insert(k, v).remove(k) =~= m);
}

/// The numbers of a list added up.
pub open spec fn sum(s: Seq<int>) -> int
    decreases s.len(),
{
    if s.len() == 0 {
        0
    } else {
        sum(s.drop_last()) + s.last()
    }
}

/// What `f` gives for the items of a list, added up.
pub open spec fn sum_by<A>(s: Seq<A>, f: spec_fn(A) -> int) -> int {
    sum(s.map_values(f))
}

/// The last item adds its number.
pub proof fn lemma_sum_by_last<A>(s: Seq<A>, f: spec_fn(A) -> int)
    requires
        s.len() > 0,
    ensures
        sum_by(s, f) == sum_by(s.drop_last(), f) + f(s.last()),
{
    assert(s.map_values(f).drop_last() =~= s.drop_last().map_values(f));
}

} // verus!
