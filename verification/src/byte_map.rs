//! An association from byte strings to values, kept as two parallel vectors
//! without repeated keys. Its model is a `Map` from `Seq<u8>`.

use vstd::prelude::*;

verus! {

/// The map that a key sequence without repetition and a value sequence of the
/// same length stand for: `keys[i]` is bound to `values[i]`.
pub open spec fn assoc<V>(keys: Seq<Seq<u8>>, values: Seq<V>) -> Map<Seq<u8>, V> {
    Map::new(|k: Seq<u8>| keys.contains(k), |k: Seq<u8>| values[keys.index_of(k)])
}

/// Each position of a repetition-free key sequence is bound to the value at the
/// same position.
pub proof fn lemma_assoc_at<V>(keys: Seq<Seq<u8>>, values: Seq<V>, i: int)
    requires
        keys.no_duplicates(),
        keys.len() == values.len(),
        0 <= i < keys.len(),
    ensures
        assoc(keys, values).contains_key(keys[i]),
        assoc(keys, values)[keys[i]] == values[i],
        keys.index_of(keys[i]) == i,
{
    assert(keys.contains(keys[i]));
    let j = keys.index_of(keys[i]);
    assert(0 <= j < keys.len() && keys[j] == keys[i]);
}

/// Appending a fresh key binds it and leaves the other bindings alone.
pub proof fn lemma_assoc_push<V>(keys: Seq<Seq<u8>>, values: Seq<V>, k: Seq<u8>, v: V)
    requires
        keys.no_duplicates(),
        keys.len() == values.len(),
        !keys.contains(k),
    ensures
        keys.push(k).no_duplicates(),
        assoc(keys.push(k), values.push(v)) =~= assoc(keys, values).insert(k, v),
{
    let keys2 = keys.push(k);
    let values2 = values.push(v);
    assert forall|i: int, j: int| 0 <= i < keys2.len() && 0 <= j < keys2.len() && i != j implies keys2[i] != keys2[j] by {
        if i < keys.len() {
            assert(keys.contains(keys[i]));
        }
        if j < keys.len() {
            assert(keys.contains(keys[j]));
        }
    }
    assert forall|q: Seq<u8>| assoc(keys2, values2).contains_key(q) <==> assoc(keys, values).insert(k, v).contains_key(q) by {
        if keys2.contains(q) {
            let i = choose|i: int| 0 <= i < keys2.len() && keys2[i] == q;
            if i < keys.len() {
                assert(keys[i] == q);
            }
        }
        if keys.contains(q) {
            let i = choose|i: int| 0 <= i < keys.len() && keys[i] == q;
            assert(keys2[i] == q);
        }
        if q == k {
            assert(keys2[keys.len() as int] == q);
        }
    }
    assert forall|q: Seq<u8>| assoc(keys2, values2).contains_key(q) implies assoc(keys2, values2)[q] == assoc(keys, values).insert(k, v)[q] by {
        let i = choose|i: int| 0 <= i < keys2.len() && keys2[i] == q;
        lemma_assoc_at(keys2, values2, i);
        if i < keys.len() {
            assert(keys[i] == q);
            lemma_assoc_at(keys, values, i);
        }
    }
}

/// Replacing the value at a position rebinds that position's key.
pub proof fn lemma_assoc_update<V>(keys: Seq<Seq<u8>>, values: Seq<V>, i: int, v: V)
    requires
        keys.no_duplicates(),
        keys.len() == values.len(),
        0 <= i < keys.len(),
    ensures
        assoc(keys, values.update(i, v)) =~= assoc(keys, values).insert(keys[i], v),
{
    let values2 = values.update(i, v);
    assert(keys.contains(keys[i]));
    assert forall|q: Seq<u8>| assoc(keys, values2).contains_key(q) implies assoc(keys, values2)[q] == assoc(keys, values).insert(keys[i], v)[q] by {
        let j = choose|j: int| 0 <= j < keys.len() && keys[j] == q;
        lemma_assoc_at(keys, values2, j);
        lemma_assoc_at(keys, values, j);
    }
}

/// Dropping a position unbinds that position's key.
pub proof fn lemma_assoc_remove<V>(keys: Seq<Seq<u8>>, values: Seq<V>, i: int)
    requires
        keys.no_duplicates(),
        keys.len() == values.len(),
        0 <= i < keys.len(),
    ensures
        keys.remove(i).no_duplicates(),
        assoc(keys.remove(i), values.remove(i)) =~= assoc(keys, values).remove(keys[i]),
{
    let keys2 = keys.remove(i);
    let values2 = values.remove(i);
    assert forall|a: int, b: int| 0 <= a < keys2.len() && 0 <= b < keys2.len() && a != b implies keys2[a] != keys2[b] by {
        let a1 = if a < i { a } else { a + 1 };
        let b1 = if b < i { b } else { b + 1 };
        assert(keys2[a] == keys[a1]);
        assert(keys2[b] == keys[b1]);
    }
    assert forall|q: Seq<u8>| assoc(keys2, values2).contains_key(q) <==> assoc(keys, values).remove(keys[i]).contains_key(q) by {
        if keys2.contains(q) {
            let a = choose|a: int| 0 <= a < keys2.len() && keys2[a] == q;
            let a1 = if a < i { a } else { a + 1 };
            assert(keys[a1] == q);
        }
        if keys.contains(q) && q != keys[i] {
            let a = choose|a: int| 0 <= a < keys.len() && keys[a] == q;
            let a2 = if a < i { a } else { a - 1 };
            assert(keys2[a2] == q);
        }
    }
    assert forall|q: Seq<u8>| assoc(keys2, values2).contains_key(q) implies assoc(keys2, values2)[q] == assoc(keys, values).remove(keys[i])[q] by {
        let a = choose|a: int| 0 <= a < keys2.len() && keys2[a] == q;
        let a1 = if a < i { a } else { a + 1 };
        assert(keys[a1] == q);
        lemma_assoc_at(keys2, values2, a);
        lemma_assoc_at(keys, values, a1);
    }
}

/// Whether two byte strings hold the same bytes.
pub fn bytes_eq(a: &[u8], b: &[u8]) -> (same: bool)
    ensures
        same == (a@ == b@),
{
    if a.len() != b.len() {
        return false;
    }
    let mut i: usize = 0;
    while i < a.len()
        invariant
            i <= a.len(),
            a.len() == b.len(),
            forall|j: int| 0 <= j < i ==> a@[j] == b@[j],
        decreases a.len() - i,
    {
        if a[i] != b[i] {
            return false;
        }
        i += 1;
    }
    proof {
        assert(a@ =~= b@);
    }
    true
}

/// A fresh vector with the bytes of `a`.
pub fn copy_bytes(a: &[u8]) -> (copy: Vec<u8>)
    ensures
        copy@ == a@,
{
    let mut copy: Vec<u8> = Vec::new();
    let mut i: usize = 0;
    while i < a.len()
        invariant
            i <= a.len(),
            copy@ == a@.subrange(0, i as int),
        decreases a.len() - i,
    {
        copy.push(a[i]);
        proof {
            assert(copy@ =~= a@.subrange(0, i + 1));
        }
        i += 1;
    }
    proof {
        assert(copy@ =~= a@);
    }
    copy
}

/// The keys after `key` is bound: as they were where `key` is among them,
/// and else with `key` at the end.
pub open spec fn keys_with(keys: Seq<Seq<u8>>, key: Seq<u8>) -> Seq<Seq<u8>> {
    if keys.contains(key) {
        keys
    } else {
        keys.push(key)
    }
}

/// The values after `key` is bound to `value`: `value` stands at the position
/// of `key`.
pub open spec fn values_with<V>(keys: Seq<Seq<u8>>, values: Seq<V>, key: Seq<u8>, value: V) -> Seq<V> {
    if keys.contains(key) {
        values.update(keys.index_of(key), value)
    } else {
        values.push(value)
    }
}

/// The keys after `key` is unbound.
pub open spec fn keys_without(keys: Seq<Seq<u8>>, key: Seq<u8>) -> Seq<Seq<u8>> {
    if keys.contains(key) {
        keys.remove(keys.index_of(key))
    } else {
        keys
    }
}

/// The values after `key` is unbound.
pub open spec fn values_without<V>(keys: Seq<Seq<u8>>, values: Seq<V>, key: Seq<u8>) -> Seq<V> {
    if keys.contains(key) {
        values.remove(keys.index_of(key))
    } else {
        values
    }
}

/// The keys of a sequence of bindings, as byte sequences.
pub open spec fn keys_of<V>(entries: Seq<(Vec<u8>, V)>) -> Seq<Seq<u8>> {
    Seq::new(entries.len(), |i: int| entries[i].0@)
}

/// The values of a sequence of bindings.
pub open spec fn values_of<V>(entries: Seq<(Vec<u8>, V)>) -> Seq<V> {
    Seq::new(entries.len(), |i: int| entries[i].1)
}

/// A map from byte strings to `V`. No key is held twice.
#[derive(Debug)]
pub struct ByteMap<V> {
    entries: Vec<(Vec<u8>, V)>,
}

impl<V> ByteMap<V> {
    /// The keys, in the order in which they are held.
    pub closed spec fn spec_keys(&self) -> Seq<Seq<u8>> {
        keys_of(self.entries@)
    }

    /// The values, each at the position of its key.
    pub closed spec fn spec_values(&self) -> Seq<V> {
        values_of(self.entries@)
    }

    /// No key is held twice, and each key has its value.
    #[verifier::type_invariant]
    pub open spec fn wf(&self) -> bool {
        &&& self.spec_keys().len() == self.spec_values().len()
        &&& self.spec_keys().no_duplicates()
    }

    pub open spec fn view(&self) -> Map<Seq<u8>, V> {
        assoc(self.spec_keys(), self.spec_values())
    }

    pub fn new() -> (m: Self)
        ensures
            m@ == Map::<Seq<u8>, V>::empty(),
            m.spec_keys() == Seq::<Seq<u8>>::empty(),
            m.spec_values() == Seq::<V>::empty(),
    {
        let m = ByteMap { entries: Vec::new() };
        proof {
            assert(m.spec_keys() =~= Seq::<Seq<u8>>::empty());
            assert(m.spec_values() =~= Seq::<V>::empty());
            assert(m@ =~= Map::<Seq<u8>, V>::empty());
        }
        m
    }

    /// The number of bindings.
    pub fn len(&self) -> (n: usize)
        ensures
            n == self.spec_keys().len(),
            n == self@.dom().len(),
            self@.dom().finite(),
    {
        proof {
            use_type_invariant(self);
            self.lemma_dom();
        }
        self.entries.len()
    }

    /// The domain of the map is the set of the held keys.
    pub proof fn lemma_dom(&self)
        requires
            self.wf(),
        ensures
            self@.dom() == self.spec_keys().to_set(),
            self@.dom().finite(),
            self@.dom().len() == self.spec_keys().len(),
    {
        assert(self@.dom() =~= self.spec_keys().to_set());
        self.spec_keys().unique_seq_to_set();
    }

    /// The key at position `i`.
    pub fn key_at(&self, i: usize) -> (k: &Vec<u8>)
        requires
            i < self.spec_keys().len(),
        ensures
            k@ == self.spec_keys()[i as int],
            self@.contains_key(k@),
    {
        proof {
            use_type_invariant(self);
            lemma_assoc_at(self.spec_keys(), self.spec_values(), i as int);
        }
        &self.entries[i].0
    }

    /// The value at position `i`.
    pub fn value_at(&self, i: usize) -> (v: &V)
        requires
            i < self.spec_keys().len(),
        ensures
            *v == self.spec_values()[i as int],
            *v == self@[self.spec_keys()[i as int]],
    {
        proof {
            use_type_invariant(self);
            lemma_assoc_at(self.spec_keys(), self.spec_values(), i as int);
        }
        &self.entries[i].1
    }

    /// The position of `key`, if it is held.
    fn find(&self, key: &[u8]) -> (at: Option<usize>)
        ensures
            match at {
                Some(i) => i < self.spec_keys().len() && self.spec_keys()[i as int] == key@,
                None => !self.spec_keys().contains(key@),
            },
    {
        let mut i: usize = 0;
        while i < self.entries.len()
            invariant
                i <= self.entries.len(),
                self.entries.len() == self.spec_keys().len(),
                forall|j: int| 0 <= j < i ==> self.spec_keys()[j] != key@,
            decreases self.entries.len() - i,
        {
            if bytes_eq(self.entries[i].0.as_slice(), key) {
                return Some(i);
            }
            i += 1;
        }
        None
    }

    /// Whether `key` is bound.
    pub fn contains_key(&self, key: &[u8]) -> (held: bool)
        ensures
            held == self@.contains_key(key@),
    {
        self.find(key).is_some()
    }

    /// The value bound to `key`, if any.
    pub fn get(&self, key: &[u8]) -> (found: Option<&V>)
        ensures
            match found {
                Some(v) => self@.contains_key(key@) && *v == self@[key@],
                None => !self@.contains_key(key@),
            },
    {
        match self.find(key) {
            Some(i) => {
                proof {
                    use_type_invariant(self);
                    lemma_assoc_at(self.spec_keys(), self.spec_values(), i as int);
                }
                Some(&self.entries[i].1)
            },
            None => None,
        }
    }

    /// Binds `key` to `value`, replacing an earlier binding of `key`. A key
    /// that is held keeps its position; a new key goes to the end.
    pub fn insert(&mut self, key: Vec<u8>, value: V)
        ensures
            final(self)@ == old(self)@.insert(key@, value),
            final(self).spec_keys() == keys_with(old(self).spec_keys(), key@),
            final(self).spec_values() == values_with(
                old(self).spec_keys(),
                old(self).spec_values(),
                key@,
                value,
            ),
    {
        proof {
            use_type_invariant(&*self);
        }
        let at = self.find(key.as_slice());
        let ghost keys = self.spec_keys();
        let ghost values = self.spec_values();
        let mut entries: Vec<(Vec<u8>, V)> = Vec::new();
        std::mem::swap(&mut entries, &mut self.entries);
        match at {
            Some(i) => {
                proof {
                    lemma_assoc_update(keys, values, i as int, value);
                    lemma_assoc_at(keys, values, i as int);
                    assert(keys.contains(key@));
                }
                entries.set(i, (key, value));
                proof {
                    assert(keys_of(entries@) =~= keys);
                    assert(values_of(entries@) =~= values.update(i as int, value));
                }
                self.entries = entries;
            },
            None => {
                proof {
                    lemma_assoc_push(keys, values, key@, value);
                }
                entries.push((key, value));
                proof {
                    assert(keys_of(entries@) =~= keys.push(key@));
                    assert(values_of(entries@) =~= values.push(value));
                }
                self.entries = entries;
            },
        }
    }

    /// Unbinds `key` and hands back the value it was bound to, if any. The
    /// other keys keep their order.
    pub fn remove(&mut self, key: &[u8]) -> (taken: Option<V>)
        ensures
            final(self)@ == old(self)@.remove(key@),
            final(self).spec_keys() == keys_without(old(self).spec_keys(), key@),
            final(self).spec_values() == values_without(
                old(self).spec_keys(),
                old(self).spec_values(),
                key@,
            ),
            match taken {
                Some(v) => old(self)@.contains_key(key@) && v == old(self)@[key@],
                None => !old(self)@.contains_key(key@),
            },
    {
        proof {
            use_type_invariant(&*self);
        }
        match self.find(key) {
            Some(i) => {
                let ghost keys = self.spec_keys();
                let ghost values = self.spec_values();
                proof {
                    lemma_assoc_at(keys, values, i as int);
                    lemma_assoc_remove(keys, values, i as int);
                    assert(keys.contains(key@));
                }
                let mut entries: Vec<(Vec<u8>, V)> = Vec::new();
                std::mem::swap(&mut entries, &mut self.entries);
                let taken = entries.remove(i);
                proof {
                    assert(keys_of(entries@) =~= keys.remove(i as int));
                    assert(values_of(entries@) =~= values.remove(i as int));
                }
                self.entries = entries;
                Some(taken.1)
            },
            None => {
                proof {
                    assert(self@ =~= self@.remove(key@));
                }
                None
            },
        }
    }
}

} // verus!
