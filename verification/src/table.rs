//! Tables with one value for each key.
use vstd::prelude::*;

use crate::guid::Guid;

verus! {

/// What can be the key of a table.
pub trait TableKey: Sized {
    /// What a key stands for.
    type Key;

    /// What this key stands for.
    spec fn key(&self) -> Self::Key;

    /// Whether two keys stand for the same thing.
    fn same_key(&self, other: &Self) -> (r: bool)
        ensures
            r == (self.key() == other.key()),
    ;
}

impl TableKey for Guid {
    type Key = Guid;

    open spec fn key(&self) -> Guid {
        *self
    }

    fn same_key(&self, other: &Self) -> (r: bool) {
        *self == *other
    }
}

impl TableKey for String {
    type Key = Seq<char>;

    open spec fn key(&self) -> Seq<char> {
        self@
    }

    fn same_key(&self, other: &Self) -> (r: bool) {
        *self == *other
    }
}

impl TableKey for usize {
    type Key = usize;

    open spec fn key(&self) -> usize {
        *self
    }

    fn same_key(&self, other: &Self) -> (r: bool) {
        *self == *other
    }
}

impl TableKey for i32 {
    type Key = i32;

    open spec fn key(&self) -> i32 {
        *self
    }

    fn same_key(&self, other: &Self) -> (r: bool) {
        *self == *other
    }
}

/// A table. Its entries stand in the order in which their values were set.
#[derive(Debug, Clone)]
pub struct Table<K: TableKey, V> {
    pub entries: Vec<(K, V)>,
}

impl<K: TableKey, V> Table<K, V> {
    /// No key occurs twice.
    pub open spec fn wf(&self) -> bool {
        forall|i: int, j: int|
            0 <= i < j < self.entries@.len() ==> (#[trigger] self.entries@[i]).0.key() != (
            #[trigger] self.entries@[j]).0.key()
    }

    /// Whether entry `i` has the key `k`.
    pub open spec fn at(&self, i: int, k: K::Key) -> bool {
        0 <= i < self.entries@.len() && self.entries@[i].0.key() == k
    }

    /// Whether there is an entry with the key `k`.
    pub open spec fn has(&self, k: K::Key) -> bool {
        exists|i: int| self.at(i, k)
    }
}

impl<K: TableKey, V> View for Table<K, V> {
    type V = Map<K::Key, V>;

    open spec fn view(&self) -> Map<K::Key, V> {
        Map::new(
            |k: K::Key| self.has(k),
            |k: K::Key| self.entries@[choose|i: int| self.at(i, k)].1,
        )
    }
}

/// An entry's value is what the table gives for its key.
pub proof fn lemma_table_entry<K: TableKey, V>(t: Table<K, V>, i: int)
    requires
        t.wf(),
        0 <= i < t.entries@.len(),
    ensures
        t@.contains_key(t.entries@[i].0.key()),
        t@[t.entries@[i].0.key()] == t.entries@[i].1,
{
    let k = t.entries@[i].0.key();
    assert(t.at(i, k));
    let c = choose|j: int| t.at(j, k);
    assert(t.at(c, k));
    assert(c == i);
}

impl<K: TableKey, V> Table<K, V> {
    /// A table without entries.
    pub fn new() -> (r: Self)
        ensures
            r.wf(),
            r@ == Map::<K::Key, V>::empty(),
            r.entries@.len() == 0,
    {
        let r: Table<K, V> = Table { entries: Vec::new() };
        assert(r@ =~= Map::<K::Key, V>::empty());
        r
    }

    /// Where the entry for `key` stands.
    pub fn position(&self, key: &K) -> (r: Option<usize>)
        ensures
            r is Some <==> self.has(key.key()),
            r matches Some(i) ==> self.at(i as int, key.key()) && i < self.entries@.len(),
    {
        let mut i: usize = 0;
        while i < self.entries.len()
            invariant
                i <= self.entries.len(),
                forall|j: int| 0 <= j < i ==> !self.at(j, key.key()),
            decreases self.entries.len() - i,
        {
            if self.entries[i].0.same_key(key) {
                assert(self.at(i as int, key.key()));
                return Some(i);
            }
            i += 1;
        }
        None
    }

    /// Whether there is an entry for `key`.
    pub fn contains(&self, key: &K) -> (r: bool)
        ensures
            r == self@.contains_key(key.key()),
    {
        self.position(key).is_some()
    }

    /// The value for `key`.
    pub fn get(&self, key: &K) -> (r: Option<&V>)
        requires
            self.wf(),
        ensures
            match r {
                Some(v) => self@.contains_key(key.key()) && self@[key.key()] == *v,
                None => !self@.contains_key(key.key()),
            },
    {
        match self.position(key) {
            Some(i) => {
                proof {
                    lemma_table_entry(*self, i as int);
                }
                Some(&self.entries[i].1)
            },
            None => None,
        }
    }

    /// Takes the entry for `key` out.
    pub fn remove(&mut self, key: &K) -> (r: Option<V>)
        requires
            old(self).wf(),
        ensures
            final(self).wf(),
            final(self)@ == old(self)@.remove(key.key()),
            match r {
                Some(v) => old(self)@.contains_key(key.key()) && old(self)@[key.key()] == v,
                None => !old(self)@.contains_key(key.key()),
            },
            r is None ==> *final(self) == *old(self),
    {
        match self.position(key) {
            Some(i) => {
                let ghost before = *self;
                proof {
                    lemma_table_entry(before, i as int);
                }
                let (_k, v) = self.entries.remove(i);
                proof {
                    let k = key.key();
                    assert forall|a: int, b: int|
                        0 <= a < b < self.entries@.len() implies (#[trigger] self.entries@[a]).0.key()
                        != (#[trigger] self.entries@[b]).0.key() by {
                        let a0 = if a < i { a } else { a + 1 };
                        let b0 = if b < i { b } else { b + 1 };
                        assert(self.entries@[a] == before.entries@[a0]);
                        assert(self.entries@[b] == before.entries@[b0]);
                    }
                    lemma_removed(before, *self, i as int);
                }
                Some(v)
            },
            None => {
                assert(self@ =~= old(self)@.remove(key.key()));
                None
            },
        }
    }

    /// Sets the value for `key`.
    pub fn insert(&mut self, key: K, value: V)
        requires
            old(self).wf(),
        ensures
            final(self).wf(),
            final(self)@ == old(self)@.insert(key.key(), value),
    {
        let ghost k = key.key();
        let ghost before = *self;
        let gone: Option<V> = self.remove(&key);
        let ghost mid = *self;
        assert(!mid.has(k)) by {
            assert(mid@ == before@.remove(k));
            assert(!mid@.contains_key(k));
        }
        self.entries.push((key, value));
        proof {
            assert forall|a: int, b: int|
                0 <= a < b < self.entries@.len() implies (#[trigger] self.entries@[a]).0.key() != (
            #[trigger] self.entries@[b]).0.key() by {
                if b == mid.entries@.len() {
                    assert(!mid.at(a, k));
                }
            }
            assert(self.entries@.drop_last() =~= mid.entries@);
            lemma_pushed(mid, *self);
            assert(self@ =~= before@.insert(k, value));
        }
    }
}

/// The items for the key `k`: none where the table has no such key.
pub open spec fn group_of<K, T>(m: Map<K, Vec<T>>, k: K) -> Seq<T> {
    if m.contains_key(k) {
        m[k]@
    } else {
        Seq::empty()
    }
}

impl<K: TableKey, T> Table<K, Vec<T>> {
    /// Adds an item to those for `key`.
    pub fn push_into(&mut self, key: K, item: T)
        requires
            old(self).wf(),
        ensures
            final(self).wf(),
            forall|k: K::Key| #[trigger]
                final(self)@.contains_key(k) == (old(self)@.contains_key(k) || k == key.key()),
            forall|k: K::Key| #[trigger]
                group_of(final(self)@, k) == if k == key.key() {
                    group_of(old(self)@, k).push(item)
                } else {
                    group_of(old(self)@, k)
                },
    {
        let mut items: Vec<T> = match self.remove(&key) {
            Some(items) => items,
            None => Vec::new(),
        };
        items.push(item);
        self.insert(key, items);
    }
}

/// Two tables with the same keys in the same places have the same keys.
pub proof fn lemma_same_keys<K: TableKey, V, W>(a: Table<K, V>, b: Table<K, W>)
    requires
        a.entries@.len() == b.entries@.len(),
        forall|i: int|
            0 <= i < a.entries@.len() ==> (#[trigger] a.entries@[i]).0.key() == b.entries@[i].0.key(),
    ensures
        a.wf() ==> b.wf(),
        forall|k: K::Key|
            #![trigger a@.contains_key(k)]
            #![trigger b@.contains_key(k)]
            a@.contains_key(k) == b@.contains_key(k),
{
    assert forall|i: int, j: int|
        a.wf() && 0 <= i < j < b.entries@.len() implies (#[trigger] b.entries@[i]).0.key() != (
    #[trigger] b.entries@[j]).0.key() by {
        assert(a.entries@[i].0.key() != a.entries@[j].0.key());
    }
    assert forall|k: K::Key| #[trigger] a@.contains_key(k) == b@.contains_key(k) by {
        if a.has(k) {
            let i = choose|i: int| a.at(i, k);
            assert(a.entries@[i].0.key() == k);
            assert(b.at(i, k));
        }
        if b.has(k) {
            let i = choose|i: int| b.at(i, k);
            assert(a.entries@[i].0.key() == b.entries@[i].0.key());
            assert(a.at(i, k));
        }
    }
}

proof fn lemma_removed<K: TableKey, V>(before: Table<K, V>, after: Table<K, V>, i: int)
    requires
        before.wf(),
        after.wf(),
        0 <= i < before.entries@.len(),
        after.entries@ == before.entries@.remove(i),
    ensures
        after@ == before@.remove(before.entries@[i].0.key()),
{
    let k = before.entries@[i].0.key();
    assert forall|q: K::Key| after@.contains_key(q) == before@.remove(k).contains_key(q) by {
        if after.has(q) {
            let a = choose|a: int| after.at(a, q);
            let a0 = if a < i { a } else { a + 1 };
            assert(after.entries@[a] == before.entries@[a0]);
            assert(before.at(a0, q));
        }
        if before.has(q) && q != k {
            let b = choose|b: int| before.at(b, q);
            let b0 = if b < i { b } else { b - 1 };
            assert(after.entries@[b0] == before.entries@[b]);
            assert(after.at(b0, q));
        }
    }
    assert forall|q: K::Key| after@.contains_key(q) implies after@[q] == before@.remove(k)[q] by {
        let a = choose|a: int| after.at(a, q);
        let a0 = if a < i { a } else { a + 1 };
        assert(after.entries@[a] == before.entries@[a0]);
        lemma_table_entry(after, a);
        lemma_table_entry(before, a0);
    }
    assert(after@ =~= before@.remove(k));
}

proof fn lemma_pushed<K: TableKey, V>(before: Table<K, V>, after: Table<K, V>)
    requires
        before.wf(),
        after.wf(),
        after.entries@.len() == before.entries@.len() + 1,
        after.entries@.drop_last() == before.entries@,
    ensures
        after@ == before@.insert(after.entries@.last().0.key(), after.entries@.last().1),
{
    let n = before.entries@.len() as int;
    let k = after.entries@.last().0.key();
    assert forall|i: int| 0 <= i < n implies #[trigger] after.entries@[i] == before.entries@[i] by {
        assert(after.entries@.drop_last()[i] == after.entries@[i]);
    }
    lemma_table_entry(after, n);
    assert forall|q: K::Key|
        after@.contains_key(q) == before@.insert(k, after.entries@.last().1).contains_key(q) by {
        if after.has(q) {
            let a = choose|a: int| after.at(a, q);
            if a < n {
                assert(before.at(a, q));
            }
        }
        if before.has(q) {
            let b = choose|b: int| before.at(b, q);
            assert(after.at(b, q));
        }
    }
    assert forall|q: K::Key| after@.contains_key(q) implies after@[q] == before@.insert(
        k,
        after.entries@.last().1,
    )[q] by {
        let a = choose|a: int| after.at(a, q);
        lemma_table_entry(after, a);
        if a < n {
            lemma_table_entry(before, a);
        }
    }
    assert(after@ =~= before@.insert(k, after.entries@.last().1));
}

} // verus!
