//! A map from strings to values, kept sorted by key.

use vstd::prelude::*;

use crate::strings::{
    ascending, less, less_irreflexive, less_total, less_transitive, listed, precedes, same,
    sorted_members, views,
};

verus! {

/// Keys, ascending, and the value of each at the same position.
#[derive(Debug)]
pub struct StrMap<V> {
    names: Vec<String>,
    slots: Vec<V>,
}

impl<V> StrMap<V> {
    /// The keys, ascending.
    pub closed spec fn keys(self) -> Seq<Seq<char>> {
        views(self.names@)
    }

    /// The values, in the order of their keys.
    pub closed spec fn values(self) -> Seq<V> {
        self.slots@
    }

    #[verifier::type_invariant]
    spec fn sorted(self) -> bool {
        ascending(self.keys()) && self.names@.len() == self.slots@.len()
    }
}

impl<V> View for StrMap<V> {
    type V = Map<Seq<char>, V>;

    open spec fn view(&self) -> Map<Seq<char>, V> {
        Map::new(
            |k: Seq<char>| self.keys().contains(k),
            |k: Seq<char>| self.values()[self.keys().index_of(k)],
        )
    }
}

impl<V> StrMap<V> {
    /// Ascending keys make the positions and the map agree.
    proof fn positions_agree(self)
        requires
            ascending(self.keys()),
            self.keys().len() == self.values().len(),
        ensures
            self.agrees(),
    {
        assert forall|i: int| 0 <= i < self.keys().len() implies self@.dom().contains(
            #[trigger] self.keys()[i],
        ) && self@[self.keys()[i]] == self.values()[i] by {
            let k = self.keys()[i];
            assert(self.keys().contains(k));
            let j = self.keys().index_of(k);
            assert(self.keys()[j] == k);
            less_irreflexive(k);
            if i < j {
                assert(less(self.keys()[i], self.keys()[j]));
            }
            if j < i {
                assert(less(self.keys()[j], self.keys()[i]));
            }
        }
    }

    /// Each key of the map has one position, where its value stands.
    pub open spec fn agrees(self) -> bool {
        &&& self.keys().len() == self.values().len()
        &&& forall|k: Seq<char>| self.keys().contains(k) <==> #[trigger] self@.dom().contains(k)
        &&& forall|i: int|
            0 <= i < self.keys().len() ==> self@.dom().contains(#[trigger] self.keys()[i])
                && self@[self.keys()[i]] == self.values()[i]
    }

    pub fn new() -> (m: Self)
        ensures
            m@ == Map::<Seq<char>, V>::empty(),
            m.keys() == Seq::<Seq<char>>::empty(),
    {
        let m = StrMap { names: Vec::new(), slots: Vec::new() };
        assert(m.keys() =~= Seq::empty());
        assert(m@ =~= Map::empty());
        m
    }

    pub fn len(&self) -> (n: usize)
        ensures
            n == self.keys().len(),
            ascending(self.keys()),
            self.agrees(),
            self.keys() == sorted_members(self@.dom()),
    {
        proof {
            use_type_invariant(self);
            self.positions_agree();
            assert forall|k: Seq<char>| #[trigger]
                self.keys().contains(k) <==> self@.dom().contains(k) by {}
            listed(self.keys(), self@.dom());
        }
        self.names.len()
    }

    pub fn is_empty(&self) -> (b: bool)
        ensures
            b == (self.keys().len() == 0),
    {
        self.names.len() == 0
    }

    /// The key at a position.
    pub fn key_at(&self, i: usize) -> (k: &str)
        requires
            i < self.keys().len(),
        ensures
            k@ == self.keys()[i as int],
    {
        self.names[i].as_str()
    }

    /// The value at a position.
    pub fn value_at(&self, i: usize) -> (v: &V)
        requires
            i < self.keys().len(),
        ensures
            *v == self.values()[i as int],
    {
        proof {
            use_type_invariant(self);
        }
        &self.slots[i]
    }

    /// Where `key` stands or belongs: every earlier key is smaller, every later one is not.
    fn position(&self, key: &str) -> (p: usize)
        ensures
            p <= self.keys().len(),
            forall|i: int| 0 <= i < p ==> less(#[trigger] self.keys()[i], key@),
            forall|i: int| p <= i < self.keys().len() ==> !less(#[trigger] self.keys()[i], key@),
    {
        proof {
            use_type_invariant(self);
        }
        let mut lo: usize = 0;
        let mut hi: usize = self.names.len();
        while lo < hi
            invariant
                lo <= hi <= self.names@.len(),
                self.keys().len() == self.names@.len(),
                ascending(self.keys()),
                forall|i: int| 0 <= i < lo ==> less(#[trigger] self.keys()[i], key@),
                forall|i: int|
                    hi <= i < self.keys().len() ==> !less(#[trigger] self.keys()[i], key@),
            decreases hi - lo,
        {
            let mid: usize = lo + (hi - lo) / 2;
            let ghost pivot = self.keys()[mid as int];
            assert(pivot == self.names@[mid as int]@);
            if precedes(self.names[mid].as_str(), key) {
                proof {
                    assert forall|i: int| 0 <= i < mid + 1 implies less(
                        #[trigger] self.keys()[i],
                        key@,
                    ) by {
                        if i < mid {
                            less_transitive(self.keys()[i], pivot, key@);
                        }
                    }
                }
                lo = mid + 1;
            } else {
                proof {
                    assert forall|i: int| mid <= i < self.keys().len() implies !less(
                        #[trigger] self.keys()[i],
                        key@,
                    ) by {
                        if mid < i && less(self.keys()[i], key@) {
                            less_transitive(pivot, self.keys()[i], key@);
                        }
                    }
                }
                hi = mid;
            }
        }
        lo
    }

    /// The value stored under `key`.
    pub fn get(&self, key: &str) -> (r: Option<&V>)
        ensures
            match r {
                Some(v) => self@.dom().contains(key@) && *v == self@[key@],
                None => !self@.dom().contains(key@),
            },
    {
        let p = self.position(key);
        proof {
            use_type_invariant(self);
            self.positions_agree();
        }
        if p < self.names.len() && same(self.names[p].as_str(), key) {
            assert(self.keys()[p as int] == key@);
            Some(&self.slots[p])
        } else {
            proof {
                if self.keys().contains(key@) {
                    let i = self.keys().index_of(key@);
                    less_irreflexive(key@);
                    assert(self.keys()[i] == key@);
                    assert(p <= i);
                    assert(p != i);
                    assert(less(self.keys()[p as int], self.keys()[i]));
                }
            }
            None
        }
    }

    /// The values, in the order of their keys.
    pub fn into_values(self) -> (v: Vec<V>)
        ensures
            v@ == self.values(),
    {
        self.slots
    }

    pub fn contains_key(&self, key: &str) -> (b: bool)
        ensures
            b == self@.dom().contains(key@),
    {
        self.get(key).is_some()
    }

    /// Stores `value` under `key`, replacing what was there.
    pub fn insert(&mut self, key: String, value: V)
        ensures
            final(self)@ == old(self)@.insert(key@, value),
    {
        let p = self.position(key.as_str());
        let ghost before = *self;
        let ghost name = key@;
        proof {
            use_type_invariant(&*self);
            before.positions_agree();
            less_irreflexive(name);
        }
        let mut taken = StrMap::<V>::new();
        std::mem::swap(&mut taken, self);
        let mut names = taken.names;
        let mut slots = taken.slots;
        let present = p < names.len() && same(names[p].as_str(), key.as_str());
        if present {
            assert(before.keys()[p as int] == name);
            let _ = names.remove(p);
            let _ = slots.remove(p);
        } else {
            proof {
                if before.keys().contains(name) {
                    let i = before.keys().index_of(name);
                    assert(before.keys()[i] == name);
                    assert(p < i);
                    assert(less(before.keys()[p as int], before.keys()[i]));
                }
            }
        }
        names.insert(p, key);
        slots.insert(p, value);
        proof {
            let after = StrMap { names, slots };
            let ks = after.keys();
            assert(ks[p as int] == name);
            assert forall|i: int| 0 <= i < ks.len() && i != p implies before.keys().contains(
                #[trigger] ks[i],
            ) && ks[i] != name by {
                let from = if present || i < p { i } else { i - 1 };
                assert(ks[i] == before.keys()[from]);
                if from != p {
                    if from < p {
                        assert(less(before.keys()[from], name));
                    } else {
                        assert(!less(before.keys()[from], name));
                        if present {
                            assert(less(before.keys()[p as int], before.keys()[from]));
                        }
                    }
                }
            }
            assert forall|i: int, j: int| 0 <= i < j < ks.len() implies less(
                #[trigger] ks[i],
                #[trigger] ks[j],
            ) by {
                let fi = if present || i < p { i } else { i - 1 };
                let fj = if present || j < p { j } else { j - 1 };
                if i == p {
                    if present {
                        assert(less(before.keys()[fi], before.keys()[fj]));
                    } else {
                        less_total(ks[j], name);
                        assert(ks[j] == before.keys()[fj]);
                    }
                } else if j == p {
                    assert(ks[i] == before.keys()[fi]);
                    assert(less(before.keys()[fi], name));
                } else {
                    assert(less(before.keys()[fi], before.keys()[fj]));
                }
            }
            assert(ascending(ks));
            after.positions_agree();
            assert forall|k: Seq<char>| #[trigger] after@.dom().contains(k) <==> before@.insert(
                name,
                value,
            ).dom().contains(k) by {
                if after.keys().contains(k) {
                    let i = after.keys().index_of(k);
                    assert(ks[i] == k);
                }
                if k == name {
                    assert(after.keys().contains(ks[p as int]));
                } else if before.keys().contains(k) {
                    let i = before.keys().index_of(k);
                    assert(before.keys()[i] == k);
                    let to = if present || i < p { i } else { i + 1 };
                    assert(ks[to] == k);
                }
            }
            assert forall|k: Seq<char>| #[trigger] after@.dom().contains(k) implies after@[k]
                == before@.insert(name, value)[k] by {
                let i = after.keys().index_of(k);
                assert(ks[i] == k);
                assert(after@[ks[i]] == after.values()[i]);
                if i != p {
                    let from = if present || i < p { i } else { i - 1 };
                    assert(before.keys()[from] == k);
                    assert(before@[before.keys()[from]] == before.values()[from]);
                }
            }
            assert(after@ =~= before@.insert(name, value));
        }
        *self = StrMap { names, slots };
    }
}

} // verus!
