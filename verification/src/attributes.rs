//! Attribute sets: named values asserted about an identity.

use vstd::prelude::*;
use vstd::set_lib::lemma_subset_equality;
use crate::byte_map::{bytes_eq, copy_bytes, ByteMap};

verus! {

/// The view of a byte vector, as a function that can be mapped over a `Map`.
pub open spec fn bytes_of(v: Vec<u8>) -> Seq<u8> {
    v@
}

/// The `(name, value)` pairs of a vector of pairs, as byte sequences.
pub open spec fn pairs_view(pairs: Seq<(Vec<u8>, Vec<u8>)>) -> Seq<(Seq<u8>, Seq<u8>)> {
    Seq::new(pairs.len(), |i: int| (pairs[i].0@, pairs[i].1@))
}

/// The names of a sequence of pairs.
pub open spec fn pair_names(pairs: Seq<(Seq<u8>, Seq<u8>)>) -> Seq<Seq<u8>> {
    Seq::new(pairs.len(), |i: int| pairs[i].0)
}

/// The pairs after `name` is given `value`: the pair of `name` keeps its
/// position, and a new name goes to the end.
pub open spec fn pairs_with(pairs: Seq<(Seq<u8>, Seq<u8>)>, name: Seq<u8>, value: Seq<u8>) -> Seq<
    (Seq<u8>, Seq<u8>),
> {
    if pair_names(pairs).contains(name) {
        pairs.update(pair_names(pairs).index_of(name), (name, value))
    } else {
        pairs.push((name, value))
    }
}

/// The pairs after `name` is taken out.
pub open spec fn pairs_without(pairs: Seq<(Seq<u8>, Seq<u8>)>, name: Seq<u8>) -> Seq<(Seq<u8>, Seq<u8>)> {
    if pair_names(pairs).contains(name) {
        pairs.remove(pair_names(pairs).index_of(name))
    } else {
        pairs
    }
}

/// A mapping from attribute name to attribute value. A name occurs once. Two
/// sets are the same when they give the same names the same values: the
/// order in which the attributes were put in plays no part in that, and
/// shows only where the attributes are listed.
#[derive(Debug)]
pub struct AttributeSet {
    entries: ByteMap<Vec<u8>>,
}

impl View for AttributeSet {
    type V = Map<Seq<u8>, Seq<u8>>;

    closed spec fn view(&self) -> Map<Seq<u8>, Seq<u8>> {
        self.entries@.map_values(|v: Vec<u8>| bytes_of(v))
    }
}

impl AttributeSet {
    /// The attributes as `(name, value)` pairs, in the order in which the set
    /// holds them and lists them.
    pub closed spec fn spec_pairs(&self) -> Seq<(Seq<u8>, Seq<u8>)> {
        Seq::new(
            self.entries.spec_keys().len(),
            |i: int| (self.entries.spec_keys()[i], self.entries.spec_values()[i]@),
        )
    }

    /// The set without attributes.
    pub fn new() -> (set: Self)
        ensures
            set@ == Map::<Seq<u8>, Seq<u8>>::empty(),
            set.spec_pairs() == Seq::<(Seq<u8>, Seq<u8>)>::empty(),
    {
        let set = AttributeSet { entries: ByteMap::new() };
        proof {
            assert(set@ =~= Map::<Seq<u8>, Seq<u8>>::empty());
            assert(set.spec_pairs() =~= Seq::<(Seq<u8>, Seq<u8>)>::empty());
        }
        set
    }

    /// Gives `name` the value `value`, in place of any it had.
    pub fn insert(&mut self, name: Vec<u8>, value: Vec<u8>)
        ensures
            final(self)@ == old(self)@.insert(name@, value@),
            final(self).spec_pairs() == pairs_with(old(self).spec_pairs(), name@, value@),
    {
        proof {
            use_type_invariant(&self.entries);
        }
        self.entries.insert(name, value);
        proof {
            assert(self@ =~= old(self)@.insert(name@, value@));
            assert(pair_names(old(self).spec_pairs()) =~= old(self).entries.spec_keys());
            assert(self.spec_pairs() =~= pairs_with(old(self).spec_pairs(), name@, value@));
        }
    }

    /// The set with `name` given the value `value`.
    pub fn with_attribute(self, name: &[u8], value: &[u8]) -> (set: Self)
        ensures
            set@ == self@.insert(name@, value@),
            set.spec_pairs() == pairs_with(self.spec_pairs(), name@, value@),
    {
        let mut set = self;
        set.insert(copy_bytes(name), copy_bytes(value));
        set
    }

    /// Takes `name` out of the set.
    pub fn remove(&mut self, name: &[u8])
        ensures
            final(self)@ == old(self)@.remove(name@),
            final(self).spec_pairs() == pairs_without(old(self).spec_pairs(), name@),
    {
        proof {
            use_type_invariant(&self.entries);
        }
        let _ = self.entries.remove(name);
        proof {
            assert(self@ =~= old(self)@.remove(name@));
            assert(pair_names(old(self).spec_pairs()) =~= old(self).entries.spec_keys());
            assert(self.spec_pairs() =~= pairs_without(old(self).spec_pairs(), name@));
        }
    }

    /// The value of `name`, if the set has it.
    pub fn get(&self, name: &[u8]) -> (value: Option<&Vec<u8>>)
        ensures
            match value {
                Some(v) => self@.contains_key(name@) && v@ == self@[name@],
                None => !self@.contains_key(name@),
            },
    {
        self.entries.get(name)
    }

    /// Whether the set has `name` with exactly the value `expected`.
    pub fn has(&self, name: &[u8], expected: &[u8]) -> (held: bool)
        ensures
            held == (self@.contains_key(name@) && self@[name@] == expected@),
    {
        match self.entries.get(name) {
            Some(v) => bytes_eq(v.as_slice(), expected),
            None => false,
        }
    }

    /// The number of attributes.
    pub fn len(&self) -> (n: usize)
        ensures
            n == self@.dom().len(),
            n == self.spec_pairs().len(),
            self@.dom().finite(),
    {
        proof {
            assert(self@.dom() =~= self.entries@.dom());
        }
        self.entries.len()
    }

    pub fn is_empty(&self) -> (none: bool)
        ensures
            none == (self@ == Map::<Seq<u8>, Seq<u8>>::empty()),
    {
        let n = self.len();
        proof {
            if n == 0 {
                assert(self@.dom() =~= Set::<Seq<u8>>::empty());
                assert(self@ =~= Map::<Seq<u8>, Seq<u8>>::empty());
            }
        }
        n == 0
    }

    /// The attributes as `(name, value)` pairs, each name once, in the order
    /// in which the set holds them.
    pub fn to_pairs(&self) -> (pairs: Vec<(Vec<u8>, Vec<u8>)>)
        ensures
            pairs_view(pairs@) == self.spec_pairs(),
            pairs@.len() == self@.dom().len(),
            forall|i: int|
                0 <= i < pairs@.len() ==> self@.contains_key((#[trigger] pairs@[i]).0@) && self@[pairs@[i].0@]
                    == pairs@[i].1@,
            forall|i: int, j: int|
                0 <= i < j < pairs@.len() ==> (#[trigger] pairs@[i]).0@ != (#[trigger] pairs@[j]).0@,
    {
        let n = self.entries.len();
        let mut pairs: Vec<(Vec<u8>, Vec<u8>)> = Vec::new();
        let mut i: usize = 0;
        proof {
            assert(self@.dom() =~= self.entries@.dom());
        }
        while i < n
            invariant
                i <= n,
                n == self.entries.spec_keys().len(),
                pairs@.len() == i,
                forall|j: int|
                    0 <= j < i ==> (#[trigger] pairs@[j]).0@ == self.entries.spec_keys()[j]
                        && pairs@[j].1@ == self.entries.spec_values()[j]@
                        && self@.contains_key(pairs@[j].0@) && self@[pairs@[j].0@] == pairs@[j].1@,
            decreases n - i,
        {
            let name = self.entries.key_at(i);
            let value = self.entries.value_at(i);
            pairs.push((copy_bytes(name.as_slice()), copy_bytes(value.as_slice())));
            i += 1;
        }
        proof {
            use_type_invariant(&self.entries);
            assert(pairs_view(pairs@) =~= self.spec_pairs());
        }
        pairs
    }

    /// Whether both sets give the same names the same values.
    pub fn same_as(&self, other: &AttributeSet) -> (same: bool)
        ensures
            same == (self@ == other@),
    {
        let n = self.entries.len();
        if n != other.entries.len() {
            proof {
                assert(self@.dom() =~= self.entries@.dom());
                assert(other@.dom() =~= other.entries@.dom());
            }
            return false;
        }
        let mut i: usize = 0;
        while i < n
            invariant
                        i <= n,
                n == self.entries.spec_keys().len(),
                forall|j: int|
                    0 <= j < i ==> other@.contains_key(#[trigger] self.entries.spec_keys()[j])
                        && other@[self.entries.spec_keys()[j]] == self@[self.entries.spec_keys()[j]],
            decreases n - i,
        {
            let name = self.entries.key_at(i);
            let value = self.entries.value_at(i);
            if !other.has(name.as_slice(), value.as_slice()) {
                return false;
            }
            i += 1;
        }
        proof {
            use_type_invariant(&self.entries);
            use_type_invariant(&other.entries);
            self.entries.lemma_dom();
            other.entries.lemma_dom();
            assert(self@.dom() =~= self.entries@.dom());
            assert(other@.dom() =~= other.entries@.dom());
            assert forall|k: Seq<u8>| self@.dom().contains(k) implies other@.dom().contains(k) by {
                let j = choose|j: int| 0 <= j < self.entries.spec_keys().len() && self.entries.spec_keys()[j] == k;
                assert(other@.contains_key(self.entries.spec_keys()[j]));
            }
            lemma_subset_equality(self@.dom(), other@.dom());
            assert forall|k: Seq<u8>| self@.dom().contains(k) implies self@[k] == other@[k] by {
                let j = choose|j: int| 0 <= j < self.entries.spec_keys().len() && self.entries.spec_keys()[j] == k;
                assert(other@.contains_key(self.entries.spec_keys()[j]));
            }
            assert(self@ =~= other@);
        }
        true
    }
}

impl PartialEq for AttributeSet {
    fn eq(&self, other: &AttributeSet) -> (same: bool) {
        self.same_as(other)
    }
}

impl Eq for AttributeSet {

}

impl vstd::std_specs::cmp::PartialEqSpecImpl for AttributeSet {
    open spec fn obeys_eq_spec() -> bool {
        true
    }

    open spec fn eq_spec(&self, other: &AttributeSet) -> bool {
        self@ == other@
    }
}

impl Clone for AttributeSet {
    fn clone(&self) -> (copy: Self)
        ensures
            copy@ == self@,
            copy.spec_pairs() == self.spec_pairs(),
    {
        let mut copy = AttributeSet::new();
        proof {
            use_type_invariant(&self.entries);
        }
        let n = self.entries.len();
        let mut i: usize = 0;
        while i < n
            invariant
                        i <= n,
                n == self.entries.spec_keys().len(),
                self.entries.wf(),
                copy.spec_pairs() == self.spec_pairs().subrange(0, i as int),
                forall|k: Seq<u8>|
                    copy@.contains_key(k) <==> exists|j: int|
                        0 <= j < i && #[trigger] self.entries.spec_keys()[j] == k,
                forall|k: Seq<u8>| copy@.contains_key(k) ==> copy@[k] == self@[k],
            decreases n - i,
        {
            let name = self.entries.key_at(i);
            let value = self.entries.value_at(i);
            let ghost before = copy@;
            let ghost pairs_before = copy.spec_pairs();
            copy.insert(copy_bytes(name.as_slice()), copy_bytes(value.as_slice()));
            proof {
                let key = self.entries.spec_keys()[i as int];
                assert(!pair_names(pairs_before).contains(key)) by {
                    if pair_names(pairs_before).contains(key) {
                        let j = choose|j: int| 0 <= j < pair_names(pairs_before).len() && pair_names(pairs_before)[j] == key;
                        assert(pairs_before[j] == self.spec_pairs()[j]);
                        assert(self.entries.spec_keys()[j] == self.entries.spec_keys()[i as int]);
                    }
                }
                assert(copy.spec_pairs() =~= self.spec_pairs().subrange(0, i + 1));
                assert forall|k: Seq<u8>| copy@.contains_key(k) implies exists|j: int|
                    0 <= j < i + 1 && #[trigger] self.entries.spec_keys()[j] == k by {
                    if k == key {
                        assert(self.entries.spec_keys()[i as int] == k);
                    } else {
                        assert(before.contains_key(k));
                        let j = choose|j: int| 0 <= j < i && #[trigger] self.entries.spec_keys()[j] == k;
                        assert(0 <= j < i + 1 && self.entries.spec_keys()[j] == k);
                    }
                }
                assert forall|k: Seq<u8>| (exists|j: int|
                    0 <= j < i + 1 && #[trigger] self.entries.spec_keys()[j] == k) implies copy@.contains_key(k) by {
                    let j = choose|j: int| 0 <= j < i + 1 && #[trigger] self.entries.spec_keys()[j] == k;
                    if j < i {
                        assert(before.contains_key(k));
                    }
                }
            }
            i += 1;
        }
        proof {
            use_type_invariant(&self.entries);
            self.entries.lemma_dom();
            assert(self@.dom() =~= self.entries@.dom());
            assert forall|k: Seq<u8>| self@.contains_key(k) implies copy@.contains_key(k) by {
                let j = choose|j: int| 0 <= j < self.entries.spec_keys().len() && self.entries.spec_keys()[j] == k;
                assert(self.entries.spec_keys()[j] == k);
            }
            assert forall|k: Seq<u8>| copy@.contains_key(k) implies self@.contains_key(k) by {
                let j = choose|j: int| 0 <= j < n && #[trigger] self.entries.spec_keys()[j] == k;
                assert(self.entries.spec_keys().contains(k));
            }
            assert(copy@ =~= self@);
            assert(copy.spec_pairs() =~= self.spec_pairs());
        }
        copy
    }
}

} // verus!
