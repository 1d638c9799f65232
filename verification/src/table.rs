//! Keyed records: a finite map kept as a list of entries with distinct keys.

use crate::text::{Addr, Sym};
use vstd::prelude::*;

verus! {

/// A value that can be looked up: it is compared exactly.
pub trait Key: Sized {
    /// Whether two keys are equal.
    fn same(&self, other: &Self) -> (r: bool)
        ensures
            r == (*self == *other),
    ;
}

impl Key for u64 {
    fn same(&self, other: &u64) -> (r: bool) {
        *self == *other
    }
}

impl Key for u128 {
    fn same(&self, other: &u128) -> (r: bool) {
        *self == *other
    }
}

impl Key for Addr {
    fn same(&self, other: &Addr) -> (r: bool) {
        Addr::same(self, other)
    }
}

impl Key for Sym {
    fn same(&self, other: &Sym) -> (r: bool) {
        Sym::same(self, other)
    }
}

impl<A: Key, B: Key> Key for (A, B) {
    fn same(&self, other: &(A, B)) -> (r: bool) {
        self.0.same(&other.0) && self.1.same(&other.1)
    }
}

/// Whether some entry has the key `k`.
spec fn has_key<K, V>(s: Seq<(K, V)>, k: K) -> bool {
    exists|i: int| 0 <= i < s.len() && (#[trigger] s[i]).0 == k
}

/// The position of an entry with the key `k`.
spec fn key_index<K, V>(s: Seq<(K, V)>, k: K) -> int {
    choose|i: int| 0 <= i < s.len() && (#[trigger] s[i]).0 == k
}

/// Whether no key occurs twice.
spec fn distinct_keys<K, V>(s: Seq<(K, V)>) -> bool {
    forall|i: int, j: int|
        0 <= i < s.len() && 0 <= j < s.len() && i != j ==> (#[trigger] s[i]).0 != (
        #[trigger] s[j]).0
}

spec fn as_map<K, V>(s: Seq<(K, V)>) -> Map<K, V> {
    Map::new(|k: K| has_key(s, k), |k: K| s[key_index(s, k)].1)
}

proof fn lemma_lookup<K, V>(s: Seq<(K, V)>, i: int)
    requires
        distinct_keys(s),
        0 <= i < s.len(),
    ensures
        as_map(s).contains_key(s[i].0),
        as_map(s)[s[i].0] == s[i].1,
{
    assert(has_key(s, s[i].0));
    let j = key_index(s, s[i].0);
    assert(s[j].0 == s[i].0);
}

proof fn lemma_push<K, V>(s: Seq<(K, V)>, k: K, v: V)
    requires
        distinct_keys(s),
        !has_key(s, k),
    ensures
        distinct_keys(s.push((k, v))),
        as_map(s.push((k, v))) == as_map(s).insert(k, v),
{
    let t = s.push((k, v));
    assert forall|i: int, j: int| 0 <= i < t.len() && 0 <= j < t.len() && i != j implies (
    #[trigger] t[i]).0 != (#[trigger] t[j]).0 by {
        if i < s.len() {
            assert(s[i].0 != k);
        }
        if j < s.len() {
            assert(s[j].0 != k);
        }
    }
    assert forall|x: K| has_key(t, x) <==> (x == k || has_key(s, x)) by {
        if has_key(t, x) {
            let i = key_index(t, x);
            assert(t[i].0 == x);
            if i < s.len() {
                assert(s[i].0 == x);
            }
        }
        if x == k {
            assert(t[s.len() as int].0 == x);
        }
        if has_key(s, x) {
            let i = key_index(s, x);
            assert(t[i].0 == x);
        }
    }
    assert forall|x: K| has_key(t, x) implies as_map(t)[x] == #[trigger] as_map(s).insert(k, v)[x] by {
        let i = key_index(t, x);
        assert(t[i].0 == x);
        lemma_lookup(t, i);
        if i < s.len() {
            lemma_lookup(s, i);
        }
    }
    assert(as_map(t) =~= as_map(s).insert(k, v));
}

proof fn lemma_update<K, V>(s: Seq<(K, V)>, i: int, v: V)
    requires
        distinct_keys(s),
        0 <= i < s.len(),
    ensures
        distinct_keys(s.update(i, (s[i].0, v))),
        as_map(s.update(i, (s[i].0, v))) == as_map(s).insert(s[i].0, v),
{
    let k = s[i].0;
    let t = s.update(i, (k, v));
    assert forall|x: K| has_key(t, x) <==> has_key(s, x) by {
        if has_key(t, x) {
            assert(s[key_index(t, x)].0 == x);
        }
        if has_key(s, x) {
            assert(t[key_index(s, x)].0 == x);
        }
    }
    assert(has_key(s, k));
    assert forall|x: K| has_key(t, x) implies as_map(t)[x] == #[trigger] as_map(s).insert(k, v)[x] by {
        let j = key_index(t, x);
        assert(t[j].0 == x);
        lemma_lookup(t, j);
        lemma_lookup(s, j);
    }
    assert(as_map(t) =~= as_map(s).insert(k, v));
}

proof fn lemma_remove<K, V>(s: Seq<(K, V)>, i: int)
    requires
        distinct_keys(s),
        0 <= i < s.len(),
    ensures
        distinct_keys(s.remove(i)),
        as_map(s.remove(i)) == as_map(s).remove(s[i].0),
{
    let k = s[i].0;
    let t = s.remove(i);
    assert forall|j: int| 0 <= j < t.len() implies #[trigger] t[j] == s[if j < i {
        j
    } else {
        j + 1
    }] by {}
    assert forall|x: K| has_key(t, x) <==> (x != k && has_key(s, x)) by {
        if has_key(t, x) {
            let j = key_index(t, x);
            assert(t[j].0 == x);
            assert(s[if j < i {
                j
            } else {
                j + 1
            }].0 == x);
        }
        if x != k && has_key(s, x) {
            let j = key_index(s, x);
            assert(s[j].0 == x);
            assert(t[if j < i {
                j
            } else {
                j - 1
            }].0 == x);
        }
    }
    assert forall|x: K| has_key(t, x) implies as_map(t)[x] == #[trigger] as_map(s).remove(k)[x] by {
        let j = key_index(t, x);
        assert(t[j].0 == x);
        lemma_lookup(t, j);
        lemma_lookup(s, if j < i {
            j
        } else {
            j + 1
        });
    }
    assert(as_map(t) =~= as_map(s).remove(k));
}

/// A finite map from `K` to `V`.
#[verifier::reject_recursive_types(K)]
#[verifier::reject_recursive_types(V)]
pub struct Table<K, V> {
    entries: Vec<(K, V)>,
}

impl<K, V> View for Table<K, V> {
    type V = Map<K, V>;

    closed spec fn view(&self) -> Map<K, V> {
        as_map(self.entries@)
    }
}

impl<K, V> Table<K, V> {
    #[verifier::type_invariant]
    spec fn inv(self) -> bool {
        distinct_keys(self.entries@)
    }
}

impl<K: Key, V> Table<K, V> {
    /// The empty table.
    pub fn new() -> (r: Self)
        ensures
            r@ == Map::<K, V>::empty(),
    {
        let r = Table { entries: Vec::new() };
        assert(r@ =~= Map::<K, V>::empty());
        r
    }

    fn position(&self, k: &K) -> (r: Option<usize>)
        ensures
            match r {
                Some(i) => i < self.entries@.len() && self.entries@[i as int].0 == *k,
                None => !has_key(self.entries@, *k),
            },
    {
        let mut i: usize = 0;
        while i < self.entries.len()
            invariant
                i <= self.entries@.len(),
                forall|j: int| 0 <= j < i ==> (#[trigger] self.entries@[j]).0 != *k,
            decreases self.entries.len() - i,
        {
            if self.entries[i].0.same(k) {
                return Some(i);
            }
            i += 1;
        }
        None
    }

    /// Whether the key is present.
    pub fn contains(&self, k: &K) -> (r: bool)
        ensures
            r == self@.contains_key(*k),
    {
        proof {
            use_type_invariant(self);
        }
        match self.position(k) {
            Some(i) => {
                proof {
                    lemma_lookup(self.entries@, i as int);
                }
                true
            },
            None => false,
        }
    }

    /// The value stored under the key.
    pub fn get(&self, k: &K) -> (r: Option<&V>)
        ensures
            match r {
                Some(v) => self@.contains_key(*k) && *v == self@[*k],
                None => !self@.contains_key(*k),
            },
    {
        proof {
            use_type_invariant(self);
        }
        match self.position(k) {
            Some(i) => {
                proof {
                    lemma_lookup(self.entries@, i as int);
                }
                Some(&self.entries[i].1)
            },
            None => None,
        }
    }

    /// Store `v` under the key, replacing what was there.
    pub fn insert(&mut self, k: K, v: V)
        ensures
            final(self)@ == old(self)@.insert(k, v),
    {
        proof {
            use_type_invariant(&*self);
        }
        let at = self.position(&k);
        let mut entries: Vec<(K, V)> = Vec::new();
        std::mem::swap(&mut entries, &mut self.entries);
        match at {
            Some(i) => {
                proof {
                    lemma_update(entries@, i as int, v);
                }
                entries[i] = (k, v);
            },
            None => {
                proof {
                    lemma_push(entries@, k, v);
                }
                entries.push((k, v));
            },
        }
        self.entries = entries;
    }

    /// Take out what is stored under the key.
    pub fn remove(&mut self, k: &K) -> (r: Option<V>)
        ensures
            final(self)@ == old(self)@.remove(*k),
            match r {
                Some(v) => old(self)@.contains_key(*k) && v == old(self)@[*k],
                None => !old(self)@.contains_key(*k),
            },
    {
        proof {
            use_type_invariant(&*self);
        }
        match self.position(k) {
            Some(i) => {
                let mut entries: Vec<(K, V)> = Vec::new();
                std::mem::swap(&mut entries, &mut self.entries);
                proof {
                    lemma_lookup(entries@, i as int);
                    lemma_remove(entries@, i as int);
                }
                let (_, v) = entries.remove(i);
                self.entries = entries;
                Some(v)
            },
            None => {
                assert(self@.remove(*k) =~= self@);
                None
            },
        }
    }
}

impl<K: Copy, V: Copy> Table<K, V> {
    /// A table of its own with the same entries.
    pub fn duplicate(&self) -> (r: Self)
        ensures
            r@ == self@,
    {
        proof {
            use_type_invariant(self);
        }
        let entries = copy_list(&self.entries);
        Table { entries }
    }
}

/// A list of its own with the same items.
pub fn copy_list<T: Copy>(v: &Vec<T>) -> (r: Vec<T>)
    ensures
        r@ == v@,
{
    let mut out: Vec<T> = Vec::new();
    let mut i: usize = 0;
    while i < v.len()
        invariant
            i <= v@.len(),
            out@ == v@.take(i as int),
        decreases v.len() - i,
    {
        out.push(v[i]);
        i += 1;
        assert(out@ =~= v@.take(i as int));
    }
    assert(out@ =~= v@);
    out
}

/// The list kept under `k`, which is empty where nothing is.
pub open spec fn list_at<K, T>(m: Map<K, Seq<T>>, k: K) -> Seq<T> {
    if m.contains_key(k) {
        m[k]
    } else {
        Seq::empty()
    }
}

/// A finite map from `K` to lists of `T`.
#[verifier::reject_recursive_types(K)]
#[verifier::reject_recursive_types(T)]
pub struct ListTable<K, T> {
    lists: Table<K, Vec<T>>,
}

impl<K, T> View for ListTable<K, T> {
    type V = Map<K, Seq<T>>;

    closed spec fn view(&self) -> Map<K, Seq<T>> {
        self.lists@.map_values(|v: Vec<T>| v@)
    }
}

impl<K: Key, T> ListTable<K, T> {
    /// The empty table.
    pub fn new() -> (r: Self)
        ensures
            r@ == Map::<K, Seq<T>>::empty(),
    {
        let r = ListTable { lists: Table::new() };
        assert(r@ =~= Map::<K, Seq<T>>::empty());
        r
    }

    /// The list stored under the key.
    pub fn get(&self, k: &K) -> (r: Option<&Vec<T>>)
        ensures
            match r {
                Some(v) => self@.contains_key(*k) && v@ == self@[*k],
                None => !self@.contains_key(*k),
            },
    {
        self.lists.get(k)
    }

    /// Store a list under the key, replacing what was there.
    pub fn insert(&mut self, k: K, v: Vec<T>)
        ensures
            final(self)@ == old(self)@.insert(k, v@),
    {
        self.lists.insert(k, v);
        assert(self@ =~= old(self)@.insert(k, v@));
    }

    /// Take out the list stored under the key; an absent list is empty.
    pub fn take(&mut self, k: &K) -> (r: Vec<T>)
        ensures
            final(self)@ == old(self)@.remove(*k),
            r@ == list_at(old(self)@, *k),
    {
        let found = self.lists.remove(k);
        assert(self@ =~= old(self)@.remove(*k));
        match found {
            Some(v) => v,
            None => Vec::new(),
        }
    }

    /// Add `x` at the end of the list stored under the key.
    pub fn push(&mut self, k: K, x: T)
        ensures
            final(self)@ == old(self)@.insert(k, list_at(old(self)@, k).push(x)),
    {
        let mut v = self.take(&k);
        v.push(x);
        self.insert(k, v);
        assert(self@ =~= old(self)@.insert(k, list_at(old(self)@, k).push(x)));
    }
}

/// The position of the first `x` in a list.
pub fn index_of<T: Key>(v: &Vec<T>, x: &T) -> (r: Option<usize>)
    ensures
        match r {
            Some(i) => i < v@.len() && v@[i as int] == *x && v@.index_of_first(*x) == Some(i as int),
            None => !v@.contains(*x),
        },
{
    let mut i: usize = 0;
    while i < v.len()
        invariant
            i <= v@.len(),
            forall|j: int| 0 <= j < i ==> v@[j] != *x,
        decreases v.len() - i,
    {
        if v[i].same(x) {
            proof {
                v@.index_of_first_ensures(*x);
            }
            return Some(i);
        }
        i += 1;
    }
    None
}

/// Take the first `x` out of a list; the rest keeps its order.
pub fn remove_value<T: Key>(v: &mut Vec<T>, x: &T)
    ensures
        final(v)@ == old(v)@.remove_value(*x),
{
    proof {
        v@.index_of_first_ensures(*x);
    }
    match index_of(v, x) {
        Some(i) => {
            v.remove(i);
        },
        None => {},
    }
}

/// Taking a value out of a list in which nothing occurs twice takes out that
/// value and nothing else.
pub proof fn lemma_remove_value<T>(s: Seq<T>, x: T)
    requires
        s.no_duplicates(),
    ensures
        s.remove_value(x).no_duplicates(),
        forall|y: T| #[trigger] s.remove_value(x).contains(y) <==> s.contains(y) && y != x,
{
    s.index_of_first_ensures(x);
    let t = s.remove_value(x);
    match s.index_of_first(x) {
        Some(i) => {
            assert forall|j: int| 0 <= j < t.len() implies #[trigger] t[j] == s[if j < i {
                j
            } else {
                j + 1
            }] by {}
            assert forall|y: T| #[trigger] t.contains(y) <==> s.contains(y) && y != x by {
                if t.contains(y) {
                    let j = choose|j: int| 0 <= j < t.len() && t[j] == y;
                    let k = if j < i {
                        j
                    } else {
                        j + 1
                    };
                    assert(s[k] == y);
                }
                if s.contains(y) && y != x {
                    let k = choose|k: int| 0 <= k < s.len() && s[k] == y;
                    assert(t[if k < i {
                        k
                    } else {
                        k - 1
                    }] == y);
                }
            }
        },
        None => {},
    }
}

/// Adding a new value at the end of a list in which nothing occurs twice.
pub proof fn lemma_push_value<T>(s: Seq<T>, x: T)
    requires
        s.no_duplicates(),
        !s.contains(x),
    ensures
        s.push(x).no_duplicates(),
        forall|y: T| #[trigger] s.push(x).contains(y) <==> s.contains(y) || y == x,
{
    let t = s.push(x);
    assert forall|y: T| #[trigger] t.contains(y) <==> s.contains(y) || y == x by {
        if s.contains(y) {
            let k = choose|k: int| 0 <= k < s.len() && s[k] == y;
            assert(t[k] == y);
        }
        if y == x {
            assert(t[s.len() as int] == y);
        }
    }
}

} // verus!
