//! An insertion-ordered map from names to values.

use vstd::prelude::*;

verus! {

/// A finite map keyed by strings. Entries keep the order in which their keys
/// were first inserted, and no key occurs twice.
#[derive(Debug)]
pub struct NameMap<V> {
    keys: Vec<String>,
    values: Vec<V>,
}

impl<V> View for NameMap<V> {
    type V = Map<Seq<char>, V>;

    /// The map from each key to the value stored under it.
    open spec fn view(&self) -> Map<Seq<char>, V> {
        Map::new(
            |k: Seq<char>| self.names().contains(k),
            |k: Seq<char>| self.values()[self.names().index_of(k)],
        )
    }
}

impl<V> NameMap<V> {
    /// The keys, in insertion order.
    pub closed spec fn names(&self) -> Seq<Seq<char>> {
        self.keys@.map_values(|k: String| k@)
    }

    /// The values, each at the position of its key in [`Self::names`].
    pub closed spec fn values(&self) -> Seq<V> {
        self.values@
    }

    /// No key occurs twice, and every key has its value.
    #[verifier::type_invariant]
    pub closed spec fn wf(&self) -> bool {
        &&& self.keys@.len() == self.values@.len()
        &&& forall|i: int, j: int|
            0 <= i < j < self.keys@.len() ==> self.keys@[i]@ != self.keys@[j]@
    }

    /// What well-formedness means in terms of the public model.
    pub proof fn lemma_wf(&self)
        ensures
            self.wf() <==> self.names().no_duplicates() && self.names().len() == self.values().len(),
            self@.dom().finite(),
            self.wf() ==> self@.dom().len() == self.names().len(),
            forall|i: int|
                self.wf() && 0 <= i < self.names().len() ==> self@.contains_key(
                    #[trigger] self.names()[i],
                ) && self@[self.names()[i]] == self.values()[i],
    {
        let names = self.names();
        vstd::seq_lib::seq_to_set_is_finite(names);
        if self.wf() {
            names.unique_seq_to_set();
            assert forall|i: int| 0 <= i < names.len() implies self@.contains_key(
                #[trigger] names[i],
            ) && self@[names[i]] == self.values()[i] by {}
        }
        if names.no_duplicates() {
            assert forall|i: int, j: int| 0 <= i < j < self.keys@.len() implies self.keys@[i]@
                != self.keys@[j]@ by {
                assert(names[i] == self.keys@[i]@);
                assert(names[j] == self.keys@[j]@);
            }
        }
    }

    /// Two maps with the same keys in the same order, whose values agree
    /// under `f` position by position, have the same image under `f`.
    pub proof fn lemma_same_image<W>(&self, other: &Self, f: spec_fn(V) -> W)
        requires
            self.wf(),
            other.wf(),
            self.names() == other.names(),
            forall|i: int| 0 <= i < self.values().len() ==> f(#[trigger] self.values()[i]) == f(other.values()[i]),
        ensures
            self@.map_values(f) == other@.map_values(f),
    {
        self.lemma_wf();
        other.lemma_wf();
        assert(self@.map_values(f) =~= other@.map_values(f)) by {
            assert forall|k: Seq<char>| self@.contains_key(k) implies other@.contains_key(k) && f(self@[k])
                == f(other@[k]) by {}
            assert forall|k: Seq<char>| other@.contains_key(k) implies self@.contains_key(k) by {}
        }
    }

    /// An empty map.
    pub fn new() -> (m: Self)
        ensures
            m.names() == Seq::<Seq<char>>::empty(),
            m.values() == Seq::<V>::empty(),
            m@ == Map::<Seq<char>, V>::empty(),
            m.wf(),
    {
        NameMap { keys: Vec::new(), values: Vec::new() }
    }

    /// The number of entries.
    pub fn len(&self) -> (n: usize)
        ensures
            n == self.names().len(),
            n == self.values().len(),
            n == self@.dom().len(),
            self.wf(),
    {
        proof {
            use_type_invariant(self);
            self.lemma_wf();
        }
        self.keys.len()
    }

    /// Whether the map has no entry.
    pub fn is_empty(&self) -> (b: bool)
        ensures
            b == (self.names().len() == 0),
            b == (self@.dom().len() == 0),
    {
        proof {
            use_type_invariant(self);
            self.lemma_wf();
        }
        self.keys.len() == 0
    }

    /// Moves the entries out and leaves the map empty.
    fn take_entries(&mut self) -> (entries: (Vec<String>, Vec<V>))
        ensures
            entries.0 == old(self).keys,
            entries.1 == old(self).values,
            final(self).keys@.len() == 0,
    {
        let mut taken = NameMap { keys: Vec::new(), values: Vec::new() };
        core::mem::swap(self, &mut taken);
        (taken.keys, taken.values)
    }

    /// The position of `key` among the keys, if it is one.
    pub fn position(&self, key: &str) -> (r: Option<usize>)
        ensures
            match r {
                Some(i) => i < self.names().len() && self.names()[i as int] == key@
                    && self.names().index_of(key@) == i,
                None => !self.names().contains(key@),
            },
            r is Some <==> self@.contains_key(key@),
    {
        proof {
            use_type_invariant(self);
            self.lemma_wf();
        }
        let mut i: usize = 0;
        while i < self.keys.len()
            invariant
                i <= self.keys@.len(),
                self.names().no_duplicates(),
                forall|j: int| 0 <= j < i ==> self.names()[j] != key@,
            decreases self.keys@.len() - i,
        {
            assert(self.names()[i as int] == self.keys@[i as int]@);
            if crate::text::str_eq(self.keys[i].as_str(), key) {
                return Some(i);
            }
            i += 1;
        }
        None
    }

    /// The key at position `i` of the insertion order.
    pub fn name_at(&self, i: usize) -> (name: &String)
        requires
            i < self.names().len(),
        ensures
            name@ == self.names()[i as int],
    {
        &self.keys[i]
    }

    /// The value at position `i` of the insertion order.
    pub fn value_at(&self, i: usize) -> (value: &V)
        requires
            i < self.names().len(),
        ensures
            *value == self.values()[i as int],
            self@.contains_key(self.names()[i as int]),
            *value == self@[self.names()[i as int]],
    {
        proof {
            use_type_invariant(self);
            self.lemma_wf();
        }
        &self.values[i]
    }

    /// The value stored under `key`, if there is one.
    pub fn get(&self, key: &str) -> (r: Option<&V>)
        ensures
            match r {
                Some(v) => self@.contains_key(key@) && *v == self@[key@],
                None => !self@.contains_key(key@),
            },
    {
        proof {
            use_type_invariant(self);
            self.lemma_wf();
        }
        match self.position(key) {
            Some(i) => Some(&self.values[i]),
            None => None,
        }
    }

    /// The value stored under `key`, for changing it in place.
    pub fn get_mut(&mut self, key: &str) -> (r: Option<&mut V>)
        ensures
            match r {
                Some(v) => old(self)@.contains_key(key@) && *v == old(self)@[key@] && final(self)@
                    == old(self)@.insert(key@, *final(v)) && final(self).names() == old(self).names(),
                None => !old(self)@.contains_key(key@) && *final(self) == *old(self),
            },
    {
        proof {
            use_type_invariant(&*self);
            self.lemma_wf();
        }
        match self.position(key) {
            Some(i) => Some(&mut self.values[i]),
            None => None,
        }
    }

    /// The keys, in insertion order.
    pub fn keys(&self) -> (r: Vec<String>)
        ensures
            r@.len() == self.names().len(),
            forall|i: int| 0 <= i < r@.len() ==> (#[trigger] r@[i])@ == self.names()[i],
    {
        let mut r: Vec<String> = Vec::new();
        let mut i: usize = 0;
        while i < self.keys.len()
            invariant
                i <= self.keys@.len(),
                r@.len() == i,
                forall|j: int| 0 <= j < i ==> (#[trigger] r@[j])@ == self.names()[j],
            decreases self.keys@.len() - i,
        {
            r.push(self.keys[i].clone());
            i += 1;
        }
        r
    }

    /// Stores `value` under `key`. A key that is already present keeps its
    /// place in the order and hands back the value it had; a new key goes to
    /// the end.
    pub fn insert(&mut self, key: String, value: V) -> (previous: Option<V>)
        ensures
            final(self)@ == old(self)@.insert(key@, value),
            previous == (if old(self)@.contains_key(key@) {
                Some(old(self)@[key@])
            } else {
                None
            }),
            old(self)@.contains_key(key@) ==> final(self).names() == old(self).names(),
            !old(self)@.contains_key(key@) ==> final(self).names() == old(self).names().push(key@),
            final(self).wf(),
    {
        proof {
            use_type_invariant(&*self);
            self.lemma_wf();
        }
        let ghost before = *self;
        match self.position(key.as_str()) {
            Some(i) => {
                let (keys, mut values) = self.take_entries();
                let old_value = values.remove(i);
                values.insert(i, value);
                *self = NameMap { keys, values };
                proof {
                    self.lemma_wf();
                    assert(self@ =~= before@.insert(key@, value)) by {
                        assert forall|k: Seq<char>| self.names().contains(k) && k != key@ implies self@[k]
                            == before@[k] by {}
                    }
                }
                Some(old_value)
            },
            None => {
                let (mut keys, mut values) = self.take_entries();
                keys.push(key);
                values.push(value);
                assert forall|a: int, b: int| 0 <= a < b < keys@.len() implies keys@[a]@ != keys@[b]@ by {
                    assert(before.names()[a] == keys@[a]@);
                }
                *self = NameMap { keys, values };
                proof {
                    self.lemma_wf();
                    let n = before.names().len() as int;
                    assert(self.names()[n] == key@);
                    assert(self@ =~= before@.insert(key@, value)) by {
                        assert forall|k: Seq<char>| before.names().contains(k) implies self.names().contains(
                            k,
                        ) && self@[k] == before@[k] by {
                            let j = before.names().index_of(k);
                            assert(self.names()[j] == k);
                        }
                        assert forall|k: Seq<char>| self.names().contains(k) && k != key@ implies before.names().contains(
                            k,
                        ) by {
                            let j = self.names().index_of(k);
                            assert(before.names()[j] == k);
                        }
                    }
                }
                None
            },
        }
    }

    /// Takes out the entry of `key` and hands back its value; the other
    /// entries keep their order. Without such an entry the map is unchanged.
    pub fn remove(&mut self, key: &str) -> (removed: Option<V>)
        ensures
            final(self)@ == old(self)@.remove(key@),
            removed == (if old(self)@.contains_key(key@) {
                Some(old(self)@[key@])
            } else {
                None
            }),
            old(self)@.contains_key(key@) ==> final(self).names() == old(self).names().remove(
                old(self).names().index_of(key@),
            ),
            !old(self)@.contains_key(key@) ==> final(self).names() == old(self).names(),
            final(self).wf(),
    {
        proof {
            use_type_invariant(&*self);
            self.lemma_wf();
        }
        let ghost before = *self;
        match self.position(key) {
            Some(i) => {
                let (mut keys, mut values) = self.take_entries();
                keys.remove(i);
                let value = values.remove(i);
                *self = NameMap { keys, values };
                proof {
                    self.lemma_wf();
                    assert(self@ =~= before@.remove(key@)) by {
                        assert forall|k: Seq<char>| self.names().contains(k) implies k != key@
                            && before.names().contains(k) && self@[k] == before@[k] by {
                            let j = self.names().index_of(k);
                            let j0 = if j < i { j } else { j + 1 };
                            assert(before.names()[j0] == k);
                        }
                        assert forall|k: Seq<char>| before.names().contains(k) && k != key@ implies self.names().contains(
                            k,
                        ) by {
                            let j0 = before.names().index_of(k);
                            let j = if j0 < i { j0 } else { j0 - 1 };
                            assert(self.names()[j] == k);
                        }
                    }
                }
                Some(value)
            },
            None => {
                None
            },
        }
    }

    /// Whether a value is stored under `key`.
    pub fn contains_key(&self, key: &str) -> (b: bool)
        ensures
            b == self@.contains_key(key@),
    {
        self.position(key).is_some()
    }
}

impl<V: Clone> Clone for NameMap<V> {
    /// A copy with the same keys in the same order, each value a clone of
    /// the one it stands for.
    fn clone(&self) -> (res: Self)
        ensures
            res.names() == self.names(),
            res.values().len() == self.values().len(),
            forall|i: int|
                0 <= i < self.values().len() ==> cloned::<V>(
                    #[trigger] self.values()[i],
                    res.values()[i],
                ),
            self.wf(),
            res.wf(),
    {
        proof {
            use_type_invariant(self);
        }
        let mut keys: Vec<String> = Vec::new();
        let mut values: Vec<V> = Vec::new();
        let mut i: usize = 0;
        while i < self.keys.len()
            invariant
                i <= self.keys@.len(),
                self.keys@.len() == self.values@.len(),
                keys@.len() == i,
                values@.len() == i,
                forall|j: int| 0 <= j < i ==> (#[trigger] keys@[j])@ == self.keys@[j]@,
                forall|j: int| 0 <= j < i ==> cloned::<V>(self.values@[j], #[trigger] values@[j]),
            decreases self.keys@.len() - i,
        {
            keys.push(self.keys[i].clone());
            values.push(self.values[i].clone());
            i += 1;
        }
        NameMap { keys, values }
    }
}

} // verus!
