use vstd::pervasive::VecAdditionalExecFns;
use vstd::prelude::*;

verus! {

/// Holds when no two entries of `s` carry the same key.
pub open spec fn distinct_keys<V>(s: Seq<(Vec<u8>, V)>) -> bool {
    forall|i: int, j: int| 0 <= i < j < s.len() ==> s[i].0@ != s[j].0@
}

/// Holds when some entry of `s` carries the key `k`.
pub open spec fn has_key<V>(s: Seq<(Vec<u8>, V)>, k: Seq<u8>) -> bool {
    exists|i: int| 0 <= i < s.len() && #[trigger] s[i].0@ == k
}

/// The index of an entry of `s` whose key is `k`, when there is one.
pub closed spec fn key_index<V>(s: Seq<(Vec<u8>, V)>, k: Seq<u8>) -> int {
    choose|i: int| 0 <= i < s.len() && #[trigger] s[i].0@ == k
}

/// The mathematical map that an entry sequence denotes: each present key is
/// sent to the value of the entry that carries it.
pub closed spec fn map_of<V>(s: Seq<(Vec<u8>, V)>) -> Map<Seq<u8>, V> {
    Map::new(|k: Seq<u8>| has_key(s, k), |k: Seq<u8>| s[key_index(s, k)].1)
}

/// With distinct keys, the entry at index `i` is exactly the one `key_index` finds.
proof fn lemma_key_at<V>(s: Seq<(Vec<u8>, V)>, k: Seq<u8>, i: int)
    requires
        distinct_keys(s),
        0 <= i < s.len(),
        s[i].0@ == k,
    ensures
        has_key(s, k),
        key_index(s, k) == i,
{
    assert(has_key(s, k));
    let j = key_index(s, k);
    assert(0 <= j < s.len() && s[j].0@ == k);
    if j < i {
        assert(s[j].0@ != s[i].0@);
    } else if i < j {
        assert(s[i].0@ != s[j].0@);
    }
}

/// Overwriting the entry that carries a key denotes insertion of that key.
proof fn lemma_map_of_update<V>(s: Seq<(Vec<u8>, V)>, i: int, p: (Vec<u8>, V))
    requires
        distinct_keys(s),
        0 <= i < s.len(),
        s[i].0@ == p.0@,
    ensures
        distinct_keys(s.update(i, p)),
        map_of(s.update(i, p)) == map_of(s).insert(p.0@, p.1),
{
    let t = s.update(i, p);
    assert forall|j: int| 0 <= j < t.len() implies #[trigger] t[j].0@ == s[j].0@ by {
    }
    assert forall|a: int, b: int| 0 <= a < b < t.len() implies t[a].0@ != t[b].0@ by {
        assert(t[a].0@ == s[a].0@);
        assert(t[b].0@ == s[b].0@);
    }
    assert(distinct_keys(t));
    let m1 = map_of(t);
    let m2 = map_of(s).insert(p.0@, p.1);
    assert forall|k: Seq<u8>| m1.contains_key(k) implies m2.contains_key(k) by {
        let w = key_index(t, k);
        assert(0 <= w < t.len() && t[w].0@ == k);
        assert(s[w].0@ == k);
        assert(has_key(s, k));
    }
    assert forall|k: Seq<u8>| m2.contains_key(k) implies m1.contains_key(k) by {
        if k == p.0@ {
            assert(t[i].0@ == k);
            assert(has_key(t, k));
        } else {
            let w = key_index(s, k);
            assert(0 <= w < s.len() && s[w].0@ == k);
            assert(t[w].0@ == k);
            assert(has_key(t, k));
        }
    }
    assert forall|k: Seq<u8>| m1.contains_key(k) implies m1[k] == m2[k] by {
        if k == p.0@ {
            lemma_key_at(t, k, i);
            assert(m1[k] == t[i].1);
            assert(m2[k] == p.1);
        } else {
            let w = key_index(t, k);
            assert(0 <= w < t.len() && t[w].0@ == k);
            assert(t[i].0@ == p.0@);
            assert(w != i);
            lemma_key_at(t, k, w);
            assert(s[w].0@ == k);
            lemma_key_at(s, k, w);
            assert(m1[k] == t[w].1);
            assert(t[w].1 == s[w].1);
            assert(m2[k] == map_of(s)[k]);
            assert(map_of(s)[k] == s[w].1);
        }
    }
    assert(m1 =~= m2);
}

/// Appending an entry with a fresh key denotes insertion of that key.
proof fn lemma_map_of_push<V>(s: Seq<(Vec<u8>, V)>, p: (Vec<u8>, V))
    requires
        distinct_keys(s),
        !has_key(s, p.0@),
    ensures
        distinct_keys(s.push(p)),
        map_of(s.push(p)) == map_of(s).insert(p.0@, p.1),
{
    let t = s.push(p);
    let n = s.len() as int;
    assert forall|a: int, b: int| 0 <= a < b < t.len() implies t[a].0@ != t[b].0@ by {
        if b < n {
            assert(t[a].0@ == s[a].0@);
            assert(t[b].0@ == s[b].0@);
        } else {
            assert(t[a].0@ == s[a].0@);
            assert(t[b].0@ == p.0@);
            if s[a].0@ == p.0@ {
                assert(has_key(s, p.0@));
            }
        }
    }
    assert(distinct_keys(t));
    let m1 = map_of(t);
    let m2 = map_of(s).insert(p.0@, p.1);
    assert forall|k: Seq<u8>| m1.contains_key(k) implies m2.contains_key(k) by {
        let w = key_index(t, k);
        assert(0 <= w < t.len() && t[w].0@ == k);
        if w < n {
            assert(s[w].0@ == k);
            assert(has_key(s, k));
        } else {
            assert(t[w].0@ == p.0@);
        }
    }
    assert forall|k: Seq<u8>| m2.contains_key(k) implies m1.contains_key(k) by {
        if k == p.0@ {
            assert(t[n].0@ == k);
            assert(has_key(t, k));
        } else {
            let w = key_index(s, k);
            assert(0 <= w < s.len() && s[w].0@ == k);
            assert(t[w].0@ == k);
            assert(has_key(t, k));
        }
    }
    assert forall|k: Seq<u8>| m1.contains_key(k) implies m1[k] == m2[k] by {
        let w = key_index(t, k);
        assert(0 <= w < t.len() && t[w].0@ == k);
        if w < n {
            assert(s[w].0@ == k);
            if k == p.0@ {
                assert(has_key(s, p.0@));
            }
            lemma_key_at(t, k, w);
            lemma_key_at(s, k, w);
            assert(m1[k] == t[w].1);
            assert(t[w].1 == s[w].1);
            assert(m2[k] == map_of(s)[k]);
            assert(map_of(s)[k] == s[w].1);
        } else {
            assert(k == p.0@);
            lemma_key_at(t, k, n);
            assert(m1[k] == t[n].1);
            assert(t[n].1 == p.1);
            assert(m2[k] == p.1);
        }
    }
    assert(m1 =~= m2);
}

/// Exact byte-wise comparison of two keys.
fn bytes_eq(a: &Vec<u8>, b: &Vec<u8>) -> (r: bool)
    ensures
        r == (a@ == b@),
{
    if a.len() != b.len() {
        return false;
    }
    let mut i: usize = 0;
    while i < a.len()
        invariant
            a@.len() == b@.len(),
            i <= a@.len(),
            forall|j: int| 0 <= j < i ==> a@[j] == b@[j],
        decreases a@.len() - i,
    {
        if a[i] != b[i] {
            return false;
        }
        i = i + 1;
    }
    proof {
        assert(a@ =~= b@);
    }
    true
}

/// A copy of a byte-string key or field, byte for byte.
pub(crate) fn clone_bytes(v: &Vec<u8>) -> (r: Vec<u8>)
    ensures
        r@ == v@,
{
    let r = v.clone();
    proof {
        assert forall|i: int| 0 <= i < v@.len() implies r@[i] == v@[i] by {
            assert(cloned::<u8>(v@[i], r@[i]));
        }
        assert(r@ =~= v@);
    }
    r
}

/// One persistent table of the record store: a key-value map from byte-string
/// keys to records, with upsert insert semantics and no delete operation.
pub struct StoreMap<V> {
    entries: Vec<(Vec<u8>, V)>,
}

impl<V> View for StoreMap<V> {
    type V = Map<Seq<u8>, V>;

    closed spec fn view(&self) -> Map<Seq<u8>, V> {
        map_of(self.entries@)
    }
}

impl<V> StoreMap<V> {
    /// The representation keeps at most one entry per key.
    pub closed spec fn wf(self) -> bool {
        distinct_keys(self.entries@)
    }

    /// An empty table.
    pub fn new() -> (r: Self)
        ensures
            r.wf(),
            r@ == Map::<Seq<u8>, V>::empty(),
    {
        let r = StoreMap { entries: Vec::new() };
        proof {
            assert(r@ =~= Map::<Seq<u8>, V>::empty());
        }
        r
    }

    /// The index of the entry that carries `key`, when there is one.
    fn find_index(&self, key: &Vec<u8>) -> (r: Option<usize>)
        ensures
            match r {
                Some(i) => i < self.entries@.len() && self.entries@[i as int].0@ == key@,
                None => forall|i: int|
                    0 <= i < self.entries@.len() ==> self.entries@[i].0@ != key@,
            },
    {
        let mut i: usize = 0;
        while i < self.entries.len()
            invariant
                i <= self.entries@.len(),
                forall|j: int| 0 <= j < i ==> self.entries@[j].0@ != key@,
            decreases self.entries@.len() - i,
        {
            if bytes_eq(&self.entries[i].0, key) {
                return Some(i);
            }
            i = i + 1;
        }
        None
    }

    /// Whether a record is stored under `key`.
    pub fn contains_key(&self, key: &Vec<u8>) -> (r: bool)
        ensures
            r == self@.contains_key(key@),
    {
        match self.find_index(key) {
            Some(i) => {
                proof {
                    assert(self.entries@[i as int].0@ == key@);
                    assert(has_key(self.entries@, key@));
                }
                true
            },
            None => {
                proof {
                    assert(!has_key(self.entries@, key@));
                }
                false
            },
        }
    }

    /// The record stored under `key`, or its absence.
    pub fn get(&self, key: &Vec<u8>) -> (r: Option<&V>)
        requires
            self.wf(),
        ensures
            match r {
                Some(v) => self@.contains_key(key@) && *v == self@[key@],
                None => !self@.contains_key(key@),
            },
    {
        match self.find_index(key) {
            Some(i) => {
                proof {
                    lemma_key_at(self.entries@, key@, i as int);
                }
                Some(&self.entries[i].1)
            },
            None => {
                proof {
                    assert(!has_key(self.entries@, key@));
                }
                None
            },
        }
    }

    /// Stores `value` under `key`, overwriting any record already there.
    pub fn insert(&mut self, key: Vec<u8>, value: V)
        requires
            old(self).wf(),
        ensures
            final(self).wf(),
            final(self)@ == old(self)@.insert(key@, value),
    {
        let ghost olds = self.entries@;
        match self.find_index(&key) {
            Some(i) => {
                proof {
                    lemma_map_of_update(olds, i as int, (key, value));
                }
                self.entries.set(i, (key, value));
            },
            None => {
                proof {
                    assert(!has_key(olds, key@));
                    lemma_map_of_push(olds, (key, value));
                }
                self.entries.push((key, value));
            },
        }
    }
}

} // verus!
