//! A small finite map with exact-match keys, used for the per-database and
//! per-topic data that the collectors gather.
//!
//! A `Table` holds its entries in insertion order, each key at most once; its
//! view is the finite map from the keys' views to the values.
use vstd::prelude::*;

verus! {

/// Keys that can be compared by their views.
pub trait TableKey: View + Sized {
    fn same_key(&self, other: &Self) -> (b: bool)
        ensures
            b == (self@ == other@),
    ;
}

impl TableKey for String {
    fn same_key(&self, other: &Self) -> (b: bool) {
        *self == *other
    }
}

impl TableKey for usize {
    fn same_key(&self, other: &Self) -> (b: bool) {
        *self == *other
    }
}

impl TableKey for (String, String) {
    fn same_key(&self, other: &Self) -> (b: bool) {
        self.0 == other.0 && self.1 == other.1
    }
}

impl TableKey for (usize, String) {
    fn same_key(&self, other: &Self) -> (b: bool) {
        self.0 == other.0 && self.1 == other.1
    }
}

/// The map that a list of entries denotes; a later entry wins over an earlier
/// one with the same key.
pub open spec fn entries_map<K: View, V>(e: Seq<(K, V)>) -> Map<K::V, V>
    decreases e.len(),
{
    if e.len() == 0 {
        Map::empty()
    } else {
        entries_map(e.drop_last()).insert(e.last().0@, e.last().1)
    }
}

/// No key occurs twice among the entries.
pub open spec fn distinct_keys<K: View, V>(e: Seq<(K, V)>) -> bool {
    forall|i: int, j: int|
        0 <= i < e.len() && 0 <= j < e.len() && i != j ==> #[trigger] e[i].0@ != #[trigger] e[j].0@
}

/// A key is in the denoted map exactly when some entry carries it.
pub proof fn lemma_entries_map_dom<K: View, V>(e: Seq<(K, V)>, k: K::V)
    ensures
        entries_map(e).contains_key(k) <==> exists|i: int| 0 <= i < e.len() && #[trigger] e[i].0@
            == k,
    decreases e.len(),
{
    if e.len() > 0 {
        lemma_entries_map_dom(e.drop_last(), k);
        if entries_map(e).contains_key(k) && e.last().0@ != k {
            let i = choose|i: int| 0 <= i < e.drop_last().len() && #[trigger] e.drop_last()[i].0@ == k;
            assert(e[i].0@ == k);
        }
        if exists|i: int| 0 <= i < e.len() && #[trigger] e[i].0@ == k {
            let i = choose|i: int| 0 <= i < e.len() && #[trigger] e[i].0@ == k;
            if i < e.len() - 1 {
                assert(e.drop_last()[i].0@ == k);
            }
        }
    }
}

/// With distinct keys, each entry's value is what the map gives for its key.
pub proof fn lemma_entries_map_index<K: View, V>(e: Seq<(K, V)>, i: int)
    requires
        distinct_keys(e),
        0 <= i < e.len(),
    ensures
        entries_map(e).contains_key(e[i].0@),
        entries_map(e)[e[i].0@] == e[i].1,
    decreases e.len(),
{
    if i < e.len() - 1 {
        let d = e.drop_last();
        assert(distinct_keys(d)) by {
            assert forall|a: int, b: int|
                0 <= a < d.len() && 0 <= b < d.len() && a != b implies #[trigger] d[a].0@
                != #[trigger] d[b].0@ by {
                assert(d[a] == e[a] && d[b] == e[b]);
            }
        }
        assert(d[i] == e[i]);
        lemma_entries_map_index(d, i);
        assert(e[i].0@ != e[e.len() - 1].0@);
    }
}

/// Total number of items in the lists stored in a table's entries.
pub open spec fn total_items<K, T>(p: Seq<(K, Vec<T>)>) -> nat
    decreases p.len(),
{
    if p.len() == 0 {
        0
    } else {
        total_items(p.drop_last()) + p.last().1@.len()
    }
}

/// The number of items in all the lists that a map holds.
pub open spec fn map_total<K, T>(m: Map<K, Vec<T>>) -> nat
    decreases m.dom().len(),
    when m.dom().finite()
{
    if m.dom().len() == 0 {
        0
    } else {
        let k = m.dom().choose();
        m[k]@.len() + map_total(m.remove(k))
    }
}

/// The total of a finite map counts each key's list once, whichever key is
/// taken first.
pub proof fn lemma_map_total_remove<K, T>(m: Map<K, Vec<T>>, k: K)
    requires
        m.dom().finite(),
        m.contains_key(k),
    ensures
        map_total(m) == m[k]@.len() + map_total(m.remove(k)),
    decreases m.dom().len(),
{
    assert(m.dom().len() > 0) by {
        if m.dom().len() == 0 {
            assert(m.dom() =~= Set::<K>::empty());
        }
    }
    let c = m.dom().choose();
    if c != k {
        lemma_map_total_remove(m.remove(c), k);
        lemma_map_total_remove(m.remove(k), c);
        assert(m.remove(c).remove(k) =~= m.remove(k).remove(c));
    }
}

/// With distinct keys, the entries' total is the total of the map that they
/// denote.
pub proof fn lemma_entries_total<K: View, T>(e: Seq<(K, Vec<T>)>)
    requires
        distinct_keys(e),
    ensures
        entries_map(e).dom().finite(),
        total_items(e) == map_total(entries_map(e)),
    decreases e.len(),
{
    if e.len() == 0 {
        assert(entries_map(e).dom() =~= Set::<K::V>::empty());
    } else {
        let d = e.drop_last();
        assert(distinct_keys(d)) by {
            assert forall|a: int, b: int|
                0 <= a < d.len() && 0 <= b < d.len() && a != b implies #[trigger] d[a].0@
                != #[trigger] d[b].0@ by {
                assert(d[a] == e[a] && d[b] == e[b]);
            }
        }
        lemma_entries_total(d);
        let k = e.last().0@;
        let md = entries_map(d);
        lemma_entries_map_dom(d, k);
        if md.contains_key(k) {
            let i = choose|i: int| 0 <= i < d.len() && #[trigger] d[i].0@ == k;
            assert(e[i] == d[i]);
            assert(e[e.len() - 1].0@ == k);
        }
        let m = entries_map(e);
        assert(m == md.insert(k, e.last().1));
        lemma_map_total_remove(m, k);
        assert(m.remove(k) =~= md);
    }
}

/// A finite map stored as a list of entries with distinct keys.
#[derive(Debug)]
pub struct Table<K: TableKey, V> {
    entries: Vec<(K, V)>,
}

impl<K: TableKey, V> View for Table<K, V> {
    type V = Map<K::V, V>;

    closed spec fn view(&self) -> Map<K::V, V> {
        entries_map(self.entries@)
    }
}

impl<K: TableKey, V> Table<K, V> {
    #[verifier::type_invariant]
    closed spec fn keys_are_distinct(self) -> bool {
        distinct_keys(self.entries@)
    }

    /// The entries in the order in which their keys were first inserted.
    pub closed spec fn pairs(self) -> Seq<(K, V)> {
        self.entries@
    }

    /// The view is the map that the entries denote.
    pub proof fn lemma_pairs(self)
        ensures
            self@ == entries_map(self.pairs()),
    {
    }

    /// An empty table.
    pub fn new() -> (t: Self)
        ensures
            t@ == Map::<K::V, V>::empty(),
            t.pairs().len() == 0,
    {
        Table { entries: Vec::new() }
    }

    /// Number of entries (the number of keys).
    pub fn len(&self) -> (n: usize)
        ensures
            n == self.pairs().len(),
            distinct_keys(self.pairs()),
    {
        proof {
            use_type_invariant(self);
        }
        self.entries.len()
    }

    /// The `i`-th entry.
    pub fn entry(&self, i: usize) -> (r: (&K, &V))
        requires
            i < self.pairs().len(),
        ensures
            *r.0 == self.pairs()[i as int].0,
            *r.1 == self.pairs()[i as int].1,
    {
        let e = &self.entries[i];
        (&e.0, &e.1)
    }

    /// Position of the entry whose key has the view of `k`, if any.
    fn position(&self, k: &K) -> (r: Option<usize>)
        ensures
            match r {
                Some(i) => i < self.entries@.len() && self.entries@[i as int].0@ == k@,
                None => forall|i: int|
                    0 <= i < self.entries@.len() ==> #[trigger] self.entries@[i].0@ != k@,
            },
    {
        let mut i: usize = 0;
        while i < self.entries.len()
            invariant
                i <= self.entries@.len(),
                forall|j: int| 0 <= j < i ==> #[trigger] self.entries@[j].0@ != k@,
            decreases self.entries@.len() - i,
        {
            if self.entries[i].0.same_key(k) {
                return Some(i);
            }
            i = i + 1;
        }
        None
    }

    /// The value stored under `k`.
    pub fn get(&self, k: &K) -> (r: Option<&V>)
        ensures
            match r {
                Some(v) => self@.contains_key(k@) && *v == self@[k@],
                None => !self@.contains_key(k@),
            },
    {
        proof {
            use_type_invariant(self);
            lemma_entries_map_dom(self.entries@, k@);
        }
        match self.position(k) {
            Some(i) => {
                proof {
                    lemma_entries_map_index(self.entries@, i as int);
                }
                Some(&self.entries[i].1)
            },
            None => None,
        }
    }

    /// Stores `v` under `k`, replacing what was stored there.
    pub fn insert(&mut self, k: K, v: V)
        ensures
            final(self)@ == old(self)@.insert(k@, v),
    {
        proof {
            use_type_invariant(&*self);
        }
        let pos = self.position(&k);
        let ghost old_e = self.entries@;
        let mut entries: Vec<(K, V)> = Vec::new();
        std::mem::swap(&mut entries, &mut self.entries);
        let ghost kv = k@;
        match pos {
            Some(j) => {
                entries.set(j, (k, v));
            },
            None => {
                entries.push((k, v));
            },
        }
        let ghost new_e = entries@;
        proof {
            assert(distinct_keys(new_e)) by {
                assert forall|a: int, b: int|
                    0 <= a < new_e.len() && 0 <= b < new_e.len() && a != b implies #[trigger] new_e[a].0@
                    != #[trigger] new_e[b].0@ by {
                    if pos is Some {
                        let j = pos->0 as int;
                        if a != j {
                            assert(new_e[a] == old_e[a]);
                        }
                        if b != j {
                            assert(new_e[b] == old_e[b]);
                        }
                    } else {
                        if a < old_e.len() {
                            assert(new_e[a] == old_e[a]);
                        }
                        if b < old_e.len() {
                            assert(new_e[b] == old_e[b]);
                        }
                    }
                }
            }
            let m_old = entries_map(old_e);
            let m_new = entries_map(new_e);
            assert forall|key: K::V| #[trigger] m_new.contains_key(key) == m_old.insert(
                kv,
                v,
            ).contains_key(key) by {
                lemma_entries_map_dom(old_e, key);
                lemma_entries_map_dom(new_e, key);
                if m_new.contains_key(key) && key != kv {
                    let i = choose|i: int| 0 <= i < new_e.len() && #[trigger] new_e[i].0@ == key;
                    assert(old_e[i].0@ == key);
                }
                if m_old.contains_key(key) {
                    let i = choose|i: int| 0 <= i < old_e.len() && #[trigger] old_e[i].0@ == key;
                    if pos is Some && i == pos->0 {
                        assert(new_e[i].0@ == key);
                    } else {
                        assert(new_e[i] == old_e[i]);
                    }
                }
                if key == kv {
                    if pos is Some {
                        assert(new_e[pos->0 as int].0@ == key);
                    } else {
                        assert(new_e[old_e.len() as int].0@ == key);
                    }
                }
            }
            assert forall|key: K::V| #[trigger] m_new.contains_key(key) implies m_new[key]
                == m_old.insert(kv, v)[key] by {
                lemma_entries_map_dom(new_e, key);
                let i = choose|i: int| 0 <= i < new_e.len() && #[trigger] new_e[i].0@ == key;
                lemma_entries_map_index(new_e, i);
                if key != kv {
                    assert(new_e[i] == old_e[i]);
                    lemma_entries_map_index(old_e, i);
                }
            }
            assert(m_new =~= m_old.insert(kv, v));
        }
        self.entries = entries;
    }

    /// Keeps only the entries whose key is one of `keep`.
    pub fn retain_keys(&mut self, keep: &Vec<K>)
        ensures
            final(self)@ == old(self)@.restrict(
                Set::new(|key: K::V| exists|i: int| 0 <= i < keep@.len() && #[trigger] keep@[i]@ == key),
            ),
    {
        proof {
            use_type_invariant(&*self);
        }
        let ghost kept = Set::new(
            |key: K::V| exists|i: int| 0 <= i < keep@.len() && #[trigger] keep@[i]@ == key,
        );
        let mut old_entries: Vec<(K, V)> = Vec::new();
        std::mem::swap(&mut old_entries, &mut self.entries);
        let ghost old_e = old_entries@;
        let mut result: Vec<(K, V)> = Vec::new();
        // Entries are moved out from the back; `taken` counts them.
        let ghost mut src: Seq<int> = Seq::empty();
        while old_entries.len() > 0
            invariant
                kept == Set::new(
                    |key: K::V| exists|i: int| 0 <= i < keep@.len() && #[trigger] keep@[i]@ == key,
                ),
                distinct_keys(old_e),
                old_entries@ == old_e.take(old_entries@.len() as int),
                old_entries@.len() <= old_e.len(),
                src.len() == result@.len(),
                forall|a: int| 0 <= a < src.len() ==> old_entries@.len() <= #[trigger] src[a] < old_e.len(),
                forall|a: int, b: int| 0 <= a < src.len() && 0 <= b < src.len() && a != b ==> #[trigger] src[a] != #[trigger] src[b],
                forall|a: int| 0 <= a < src.len() ==> #[trigger] result@[a] == old_e[src[a]],
                forall|a: int| 0 <= a < src.len() ==> kept.contains(#[trigger] result@[a].0@),
                forall|j: int|
                    old_entries@.len() <= j < old_e.len() && kept.contains(#[trigger] old_e[j].0@)
                        ==> exists|a: int| 0 <= a < src.len() && #[trigger] src[a] == j,
            decreases old_entries@.len(),
        {
            let n = old_entries.len();
            let e = old_entries.pop().unwrap();
            let ghost j = (n - 1) as int;
            assert(e == old_e[j]);
            assert(old_entries@ =~= old_e.take(old_entries@.len() as int));
            let mut found = false;
            let mut t: usize = 0;
            while t < keep.len()
                invariant
                    t <= keep@.len(),
                    found == exists|i: int| 0 <= i < t && #[trigger] keep@[i]@ == e.0@,
                decreases keep@.len() - t,
            {
                if keep[t].same_key(&e.0) {
                    found = true;
                }
                t = t + 1;
            }
            let ghost old_src = src;
            proof {
                assert(found == kept.contains(e.0@));
            }
            if found {
                proof {
                    src = src.push(j);
                    assert(src[src.len() - 1] == j);
                }
                result.push(e);
            }
            proof {
                assert forall|jj: int|
                    old_entries@.len() <= jj < old_e.len() && kept.contains(#[trigger] old_e[jj].0@)
                        implies exists|a: int| 0 <= a < src.len() && #[trigger] src[a] == jj by {
                    if jj == j {
                        assert(src[src.len() - 1] == jj);
                    } else {
                        let a = choose|a: int| 0 <= a < old_src.len() && #[trigger] old_src[a] == jj;
                        assert(src[a] == jj);
                    }
                }
            }
        }
        let ghost res = result@;
        proof {
            assert(distinct_keys(res)) by {
                assert forall|a: int, b: int|
                    0 <= a < res.len() && 0 <= b < res.len() && a != b implies #[trigger] res[a].0@
                    != #[trigger] res[b].0@ by {
                    assert(res[a] == old_e[src[a]]);
                    assert(res[b] == old_e[src[b]]);
                }
            }
            let m_old = entries_map(old_e);
            let m_new = entries_map(res);
            let m_want = m_old.restrict(kept);
            assert forall|key: K::V| #[trigger] m_new.contains_key(key) == m_want.contains_key(
                key,
            ) by {
                lemma_entries_map_dom(old_e, key);
                lemma_entries_map_dom(res, key);
                if m_new.contains_key(key) {
                    let a = choose|a: int| 0 <= a < res.len() && #[trigger] res[a].0@ == key;
                    assert(old_e[src[a]].0@ == key);
                }
                if m_want.contains_key(key) {
                    let i = choose|i: int| 0 <= i < old_e.len() && #[trigger] old_e[i].0@ == key;
                    let a = choose|a: int| 0 <= a < src.len() && #[trigger] src[a] == i;
                    assert(res[a].0@ == key);
                }
            }
            assert forall|key: K::V| #[trigger] m_new.contains_key(key) implies m_new[key]
                == m_want[key] by {
                lemma_entries_map_dom(res, key);
                let a = choose|a: int| 0 <= a < res.len() && #[trigger] res[a].0@ == key;
                lemma_entries_map_index(res, a);
                lemma_entries_map_index(old_e, src[a]);
            }
            assert(m_new =~= m_want);
        }
        self.entries = result;
    }
}

/// A read gives back what the last write of the key stored, and a write
/// leaves the other keys as they were.
pub proof fn law_read_after_write<K, V>(m: Map<K, V>, k: K, v: V, other: K)
    ensures
        m.insert(k, v).contains_key(k),
        m.insert(k, v)[k] == v,
        other != k ==> (m.insert(k, v).contains_key(other) == m.contains_key(other)),
        other != k && m.contains_key(other) ==> m.insert(k, v)[other] == m[other],
{
}

} // verus!
