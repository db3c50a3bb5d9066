//! 32-byte words and a small map keyed by them.

use vstd::prelude::*;

verus! {

/// A 256-bit hash.
#[derive(Clone, Copy, Debug, PartialEq, Eq, Hash)]
pub struct H256(pub [u8; 32]);

/// A 256-bit unsigned integer, as four 64-bit limbs, least significant first.
#[derive(Clone, Copy, Debug, PartialEq, Eq, Hash)]
pub struct U256(pub [u64; 4]);

/// A 160-bit hash, such as an Ethereum address.
#[derive(Clone, Copy, Debug, PartialEq, Eq, Hash)]
pub struct H160(pub [u8; 20]);

/// The value of a 256-bit unsigned integer.
pub open spec fn u256_value(x: U256) -> int {
    x.0[0] + x.0[1] * 0x1_0000_0000_0000_0000 + x.0[2] * 0x1_0000_0000_0000_0000_0000_0000_0000_0000
        + x.0[3] * 0x1_0000_0000_0000_0000_0000_0000_0000_0000_0000_0000_0000_0000
}

impl U256 {
    /// The integer with this value.
    pub fn from_u64(v: u64) -> (r: U256)
        ensures
            r.0@ == seq![v, 0u64, 0u64, 0u64],
            u256_value(r) == v,
    {
        let r = U256([v, 0, 0, 0]);
        assert(r.0@ =~= seq![v, 0u64, 0u64, 0u64]);
        r
    }

    /// The value as a `u64`, when it fits.
    pub fn to_u64(&self) -> (r: Option<u64>)
        ensures
            r is Some <==> (self.0[1] == 0 && self.0[2] == 0 && self.0[3] == 0),
            r matches Some(v) ==> v == self.0[0] && u256_value(*self) == v,
    {
        if self.0[1] == 0 && self.0[2] == 0 && self.0[3] == 0 {
            Some(self.0[0])
        } else {
            None
        }
    }
}

/// Compares two arrays of limbs.
fn limbs_eq(a: &[u64; 4], b: &[u64; 4]) -> (r: bool)
    ensures
        r == (*a == *b),
{
    let mut i: usize = 0;
    while i < 4
        invariant
            i <= 4,
            forall|k: int| 0 <= k < i ==> a[k] == b[k],
        decreases 4 - i,
    {
        if a[i] != b[i] {
            return false;
        }
        i += 1;
    }
    assert(*a =~= *b);
    true
}

/// Compares two byte arrays.
fn bytes_eq(a: &[u8; 32], b: &[u8; 32]) -> (r: bool)
    ensures
        r == (*a == *b),
{
    let mut i: usize = 0;
    while i < 32
        invariant
            i <= 32,
            forall|k: int| 0 <= k < i ==> a[k] == b[k],
        decreases 32 - i,
    {
        if a[i] != b[i] {
            return false;
        }
        i += 1;
    }
    assert(*a =~= *b);
    true
}

/// A key compared by its bytes.
pub trait WordKey: Sized + Copy {
    fn same(&self, other: &Self) -> (r: bool)
        ensures
            r == (*self == *other),
    ;
}

impl WordKey for H256 {
    fn same(&self, other: &Self) -> (r: bool) {
        let r = bytes_eq(&self.0, &other.0);
        proof {
            if !r {
                assert(self.0 != other.0);
            }
        }
        r
    }
}

impl WordKey for U256 {
    fn same(&self, other: &Self) -> (r: bool) {
        let r = limbs_eq(&self.0, &other.0);
        proof {
            if !r {
                assert(self.0 != other.0);
            }
        }
        r
    }
}

/// A map kept as a list of entries with distinct keys. vstd specifies
/// `std::collections::HashMap` only for key types whose hashing it models
/// (integers, `bool`, boxes of them); with an `H256` or a `[u8; 32]` key not
/// even an insert followed by `contains_key` can be proved, so hash-keyed maps
/// use this list, searched linearly, with its lookups proved.
pub struct KeyMap<K, V> {
    entries: Vec<(K, V)>,
}

/// The keys of a list of entries, in order.
pub open spec fn keys_of<K, V>(entries: Seq<(K, V)>) -> Seq<K> {
    entries.map_values(|e: (K, V)| e.0)
}

/// The position of a key in a list of entries.
pub open spec fn position_of<K, V>(entries: Seq<(K, V)>, k: K) -> int {
    choose|i: int| 0 <= i < entries.len() && entries[i].0 == k
}

/// The map that a list of entries with distinct keys stands for.
pub open spec fn map_of<K, V>(entries: Seq<(K, V)>) -> Map<K, V> {
    Map::new(
        |k: K| exists|i: int| 0 <= i < entries.len() && entries[i].0 == k,
        |k: K| entries[position_of(entries, k)].1,
    )
}

/// No two entries share a key.
pub open spec fn distinct_keys<K, V>(entries: Seq<(K, V)>) -> bool {
    forall|i: int, j: int|
        0 <= i < entries.len() && 0 <= j < entries.len() && #[trigger] entries[i].0
            == #[trigger] entries[j].0 ==> i == j
}

proof fn lemma_position<K, V>(entries: Seq<(K, V)>, i: int)
    requires
        distinct_keys(entries),
        0 <= i < entries.len(),
    ensures
        position_of(entries, entries[i].0) == i,
        map_of(entries).contains_key(entries[i].0),
        map_of(entries)[entries[i].0] == entries[i].1,
{
    let k = entries[i].0;
    assert(exists|j: int| 0 <= j < entries.len() && entries[j].0 == k);
}

proof fn lemma_len<K, V>(entries: Seq<(K, V)>)
    requires
        distinct_keys(entries),
    ensures
        map_of(entries).dom().finite(),
        map_of(entries).len() == entries.len(),
{
    let ks = keys_of(entries);
    assert(ks.no_duplicates()) by {
        assert forall|i: int, j: int| 0 <= i < ks.len() && 0 <= j < ks.len() && i != j implies ks[i]
            != ks[j] by {
            assert(ks[i] == entries[i].0);
            assert(ks[j] == entries[j].0);
        }
    }
    ks.unique_seq_to_set();
    assert(map_of(entries).dom() =~= ks.to_set()) by {
        assert forall|k: K| map_of(entries).dom().contains(k) implies ks.to_set().contains(k) by {
            let i = choose|i: int| 0 <= i < entries.len() && entries[i].0 == k;
            assert(ks[i] == k);
        }
        assert forall|k: K| ks.to_set().contains(k) implies map_of(entries).dom().contains(k) by {
            let i = choose|i: int| 0 <= i < ks.len() && ks[i] == k;
            assert(entries[i].0 == k);
        }
    }
}

impl<K: WordKey, V> KeyMap<K, V> {
    pub closed spec fn view(&self) -> Map<K, V> {
        map_of(self.entries@)
    }

    /// The entries keep distinct keys.
    pub closed spec fn wf(&self) -> bool {
        distinct_keys(self.entries@)
    }

    /// The empty map.
    pub fn new() -> (r: Self)
        ensures
            r.wf(),
            r@ == Map::<K, V>::empty(),
    {
        let r = KeyMap { entries: Vec::new() };
        assert(r@ =~= Map::<K, V>::empty());
        r
    }

    fn find(&self, k: &K) -> (r: Option<usize>)
        requires
            self.wf(),
        ensures
            r matches Some(i) ==> i < self.entries@.len() && self.entries@[i as int].0 == *k,
            r is None ==> !self@.contains_key(*k),
    {
        let mut i: usize = 0;
        while i < self.entries.len()
            invariant
                i <= self.entries@.len(),
                forall|j: int| 0 <= j < i ==> self.entries@[j].0 != *k,
            decreases self.entries@.len() - i,
        {
            if self.entries[i].0.same(k) {
                return Some(i);
            }
            i += 1;
        }
        None
    }

    /// The value at a key.
    pub fn get(&self, k: &K) -> (r: Option<&V>)
        requires
            self.wf(),
        ensures
            r is Some <==> self@.contains_key(*k),
            r matches Some(v) ==> *v == self@[*k],
    {
        match self.find(k) {
            Some(i) => {
                proof {
                    lemma_position(self.entries@, i as int);
                }
                Some(&self.entries[i].1)
            },
            None => None,
        }
    }

    /// The number of keys.
    pub fn len(&self) -> (r: usize)
        requires
            self.wf(),
        ensures
            r == self@.len(),
            self@.dom().finite(),
    {
        proof {
            lemma_len(self.entries@);
        }
        self.entries.len()
    }

    /// Sets the value at a key.
    pub fn insert(&mut self, k: K, v: V)
        requires
            old(self).wf(),
        ensures
            final(self).wf(),
            final(self)@ == old(self)@.insert(k, v),
    {
        let ghost old_entries = self.entries@;
        match self.find(&k) {
            Some(i) => {
                self.entries.set(i, (k, v));
                proof {
                    let e = self.entries@;
                    assert(e =~= old_entries.update(i as int, (k, v)));
                    assert forall|a: int, b: int|
                        0 <= a < e.len() && 0 <= b < e.len() && #[trigger] e[a].0 == #[trigger] e[b].0
                        implies a == b by {
                        assert(old_entries[a].0 == e[a].0);
                        assert(old_entries[b].0 == e[b].0);
                    }
                    lemma_position(old_entries, i as int);
                    assert forall|key: K| #[trigger] map_of(e).contains_key(key) == map_of(
                        old_entries,
                    ).insert(k, v).contains_key(key) by {
                        if map_of(e).contains_key(key) {
                            let j = choose|j: int| 0 <= j < e.len() && e[j].0 == key;
                            assert(old_entries[j].0 == key);
                        }
                        if map_of(old_entries).contains_key(key) {
                            let j = choose|j: int| 0 <= j < old_entries.len() && old_entries[j].0 == key;
                            assert(e[j].0 == key);
                        }
                    }
                    assert forall|key: K| #[trigger] map_of(e).contains_key(key) implies map_of(e)[key]
                        == map_of(old_entries).insert(k, v)[key] by {
                        let j = choose|j: int| 0 <= j < e.len() && e[j].0 == key;
                        lemma_position(e, j);
                        if key != k {
                            lemma_position(old_entries, j);
                        }
                    }
                    assert(map_of(e) =~= map_of(old_entries).insert(k, v));
                }
            },
            None => {
                self.entries.push((k, v));
                proof {
                    let e = self.entries@;
                    let n = old_entries.len() as int;
                    assert(e =~= old_entries.push((k, v)));
                    assert forall|a: int, b: int|
                        0 <= a < e.len() && 0 <= b < e.len() && #[trigger] e[a].0 == #[trigger] e[b].0
                        implies a == b by {
                        if a < n && b == n {
                            assert(map_of(old_entries).contains_key(old_entries[a].0));
                        }
                        if b < n && a == n {
                            assert(map_of(old_entries).contains_key(old_entries[b].0));
                        }
                    }
                    assert forall|key: K| #[trigger] map_of(e).contains_key(key) == map_of(
                        old_entries,
                    ).insert(k, v).contains_key(key) by {
                        if map_of(e).contains_key(key) && key != k {
                            let j = choose|j: int| 0 <= j < e.len() && e[j].0 == key;
                            assert(old_entries[j].0 == key);
                        }
                        if map_of(old_entries).contains_key(key) {
                            let j = choose|j: int| 0 <= j < old_entries.len() && old_entries[j].0 == key;
                            assert(e[j].0 == key);
                        }
                        if key == k {
                            assert(e[n].0 == key);
                        }
                    }
                    assert forall|key: K| #[trigger] map_of(e).contains_key(key) implies map_of(e)[key]
                        == map_of(old_entries).insert(k, v)[key] by {
                        let j = choose|j: int| 0 <= j < e.len() && e[j].0 == key;
                        lemma_position(e, j);
                        if j < n {
                            lemma_position(old_entries, j);
                        }
                    }
                    assert(map_of(e) =~= map_of(old_entries).insert(k, v));
                }
            },
        }
    }

    /// Removes a key, handing back its value.
    pub fn remove(&mut self, k: &K) -> (r: Option<V>)
        requires
            old(self).wf(),
        ensures
            final(self).wf(),
            final(self)@ == old(self)@.remove(*k),
            r is Some <==> old(self)@.contains_key(*k),
            r matches Some(v) ==> v == old(self)@[*k],
    {
        let ghost old_entries = self.entries@;
        match self.find(k) {
            Some(i) => {
                proof {
                    lemma_position(old_entries, i as int);
                }
                let (_, v) = self.entries.remove(i);
                proof {
                    let e = self.entries@;
                    let ii = i as int;
                    assert(e =~= old_entries.remove(ii));
                    assert forall|a: int| 0 <= a < e.len() implies #[trigger] e[a] == (if a < ii {
                        old_entries[a]
                    } else {
                        old_entries[a + 1]
                    }) by {}
                    assert forall|a: int, b: int|
                        0 <= a < e.len() && 0 <= b < e.len() && #[trigger] e[a].0 == #[trigger] e[b].0
                        implies a == b by {
                        let oa = if a < ii { a } else { a + 1 };
                        let ob = if b < ii { b } else { b + 1 };
                        assert(old_entries[oa].0 == old_entries[ob].0);
                    }
                    assert forall|key: K| #[trigger] map_of(e).contains_key(key) == map_of(
                        old_entries,
                    ).remove(*k).contains_key(key) by {
                        if map_of(e).contains_key(key) {
                            let j = choose|j: int| 0 <= j < e.len() && e[j].0 == key;
                            let oj = if j < ii { j } else { j + 1 };
                            assert(old_entries[oj].0 == key);
                            assert(oj != ii);
                        }
                        if map_of(old_entries).contains_key(key) && key != *k {
                            let j = choose|j: int| 0 <= j < old_entries.len() && old_entries[j].0 == key;
                            assert(j != ii);
                            let nj = if j < ii { j } else { j - 1 };
                            assert(e[nj].0 == key);
                        }
                    }
                    assert forall|key: K| #[trigger] map_of(e).contains_key(key) implies map_of(e)[key]
                        == map_of(old_entries).remove(*k)[key] by {
                        let j = choose|j: int| 0 <= j < e.len() && e[j].0 == key;
                        lemma_position(e, j);
                        let oj = if j < ii { j } else { j + 1 };
                        lemma_position(old_entries, oj);
                    }
                    assert(map_of(e) =~= map_of(old_entries).remove(*k));
                }
                Some(v)
            },
            None => {
                proof {
                    assert(map_of(old_entries) =~= map_of(old_entries).remove(*k));
                }
                None
            },
        }
    }

    /// The values, one per key.
    pub fn values(&self) -> (r: Vec<V>)
        where
            V: Copy,
        requires
            self.wf(),
        ensures
            r@.to_set() == self@.values(),
    {
        let mut r: Vec<V> = Vec::new();
        let mut i: usize = 0;
        while i < self.entries.len()
            invariant
                i <= self.entries@.len(),
                r@.len() == i,
                forall|j: int| 0 <= j < i ==> #[trigger] r@[j] == self.entries@[j].1,
            decreases self.entries@.len() - i,
        {
            r.push(self.entries[i].1);
            i += 1;
        }
        proof {
            let e = self.entries@;
            assert forall|v: V| #[trigger] r@.to_set().contains(v) implies self@.values().contains(v) by {
                let j = choose|j: int| 0 <= j < r@.len() && r@[j] == v;
                lemma_position(e, j);
                assert(self@.contains_key(e[j].0) && self@[e[j].0] == v);
            }
            assert forall|v: V| #[trigger] self@.values().contains(v) implies r@.to_set().contains(v) by {
                let k = choose|k: K| self@.contains_key(k) && self@[k] == v;
                let j = choose|j: int| 0 <= j < e.len() && e[j].0 == k;
                lemma_position(e, j);
                assert(r@[j] == v);
            }
            assert(r@.to_set() =~= self@.values());
        }
        r
    }
}

} // verus!
