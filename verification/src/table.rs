//! A table from names to values that keeps the order in which the names
//! were first inserted. Its mathematical value is a map.

use vstd::prelude::*;

verus! {

/// The index at which `key` stands in `keys`.
pub open spec fn key_index(keys: Seq<String>, key: Seq<char>) -> int {
    choose|i: int| 0 <= i < keys.len() && (#[trigger] keys[i])@ == key
}

/// Whether `key` stands in `keys`.
pub open spec fn has_key(keys: Seq<String>, key: Seq<char>) -> bool {
    exists|i: int| 0 <= i < keys.len() && (#[trigger] keys[i])@ == key
}

/// Whether no two of `keys` spell the same name.
pub open spec fn distinct_keys(keys: Seq<String>) -> bool {
    forall|i: int, j: int|
        0 <= i < j < keys.len() ==> (#[trigger] keys[i])@ != (#[trigger] keys[j])@
}

/// A map from names to values, held as two vectors of one length.
#[derive(Debug)]
pub struct NameTable<V> {
    keys: Vec<String>,
    values: Vec<V>,
}

impl<V> View for NameTable<V> {
    type V = Map<Seq<char>, V>;

    closed spec fn view(&self) -> Map<Seq<char>, V> {
        Map::new(
            |k: Seq<char>| has_key(self.keys@, k),
            |k: Seq<char>| self.values@[key_index(self.keys@, k)],
        )
    }
}

impl<V> NameTable<V> {
    #[verifier::type_invariant]
    spec fn well_formed(self) -> bool {
        self.keys@.len() == self.values@.len() && distinct_keys(self.keys@)
    }

    /// The names of the table in the order of their first insertion.
    pub closed spec fn names(&self) -> Seq<Seq<char>> {
        Seq::new(self.keys@.len(), |i: int| self.keys@[i]@)
    }

    /// The values of the table, each at the index of its name.
    pub closed spec fn items(&self) -> Seq<V> {
        self.values@
    }

    /// The names are distinct, they are the domain of the map, and each
    /// value stands at the index of its name.
    pub open spec fn indexed(&self) -> bool {
        &&& self.names().no_duplicates()
        &&& self.names().len() == self.items().len()
        &&& forall|k: Seq<char>| self@.contains_key(k) <==> self.names().contains(k)
        &&& forall|i: int|
            0 <= i < self.names().len() ==> self@.contains_key(#[trigger] self.names()[i])
                && self@[self.names()[i]] == self.items()[i]
    }

    proof fn lemma_indexed(&self)
        requires
            self.well_formed(),
        ensures
            self.indexed(),
    {
        let names = self.names();
        assert forall|k: Seq<char>| self@.contains_key(k) <==> names.contains(k) by {
            if self@.contains_key(k) {
                let i = key_index(self.keys@, k);
                assert(names[i] == k);
            }
            if names.contains(k) {
                let i = choose|i: int| 0 <= i < names.len() && names[i] == k;
                assert(self.keys@[i]@ == k);
            }
        }
        assert forall|i: int| 0 <= i < names.len() implies self@.contains_key(
            #[trigger] names[i],
        ) && self@[names[i]] == self.items()[i] by {
            assert(self.keys@[i]@ == names[i]);
            let j = key_index(self.keys@, names[i]);
            assert(j == i);
        }
    }

    /// An empty table.
    pub fn new() -> (table: Self)
        ensures
            table@ == Map::<Seq<char>, V>::empty(),
            table.names().len() == 0,
    {
        let table = NameTable { keys: Vec::new(), values: Vec::new() };
        assert(table@ =~= Map::<Seq<char>, V>::empty());
        table
    }

    /// The number of names.
    pub fn len(&self) -> (n: usize)
        ensures
            n == self.names().len(),
            self.indexed(),
    {
        proof {
            use_type_invariant(self);
            self.lemma_indexed();
        }
        self.keys.len()
    }

    /// The index of `key` among the names.
    pub fn position(&self, key: &str) -> (r: Option<usize>)
        ensures
            match r {
                Some(i) => i < self.names().len() && self.names()[i as int] == key@,
                None => !self@.contains_key(key@),
            },
            r is Some <==> self@.contains_key(key@),
    {
        let mut i: usize = 0;
        while i < self.keys.len()
            invariant
                i <= self.keys.len(),
                forall|j: int| 0 <= j < i ==> (#[trigger] self.keys@[j])@ != key@,
            decreases self.keys.len() - i,
        {
            if crate::text::same_text(self.keys[i].as_str(), key) {
                return Some(i);
            }
            i += 1;
        }
        None
    }

    /// Whether the table has the name `key`.
    pub fn contains_key(&self, key: &str) -> (r: bool)
        ensures
            r == self@.contains_key(key@),
    {
        self.position(key).is_some()
    }

    /// The name at index `i`.
    pub fn key_at(&self, i: usize) -> (key: &String)
        requires
            i < self.names().len(),
        ensures
            key@ == self.names()[i as int],
    {
        &self.keys[i]
    }

    /// The value at index `i`.
    pub fn value_at(&self, i: usize) -> (value: &V)
        requires
            i < self.names().len(),
        ensures
            *value == self.items()[i as int],
            self@.contains_key(self.names()[i as int]),
            *value == self@[self.names()[i as int]],
    {
        proof {
            use_type_invariant(self);
            self.lemma_indexed();
        }
        &self.values[i]
    }

    /// The value of `key`.
    pub fn get(&self, key: &str) -> (r: Option<&V>)
        ensures
            match r {
                Some(value) => self@.contains_key(key@) && *value == self@[key@],
                None => !self@.contains_key(key@),
            },
    {
        proof {
            use_type_invariant(self);
            self.lemma_indexed();
        }
        match self.position(key) {
            Some(i) => Some(&self.values[i]),
            None => None,
        }
    }

    /// Sets the value of `key`, which keeps its place if the table has it
    /// and else becomes the last name.
    pub fn insert(&mut self, key: String, value: V)
        ensures
            final(self)@ == old(self)@.insert(key@, value),
            old(self)@.contains_key(key@) ==> final(self).names() == old(self).names(),
            !old(self)@.contains_key(key@) ==> final(self).names() == old(self).names().push(key@),
    {
        proof {
            use_type_invariant(&*self);
        }
        let found = self.position(key.as_str());
        let mut taken: NameTable<V> = NameTable { keys: Vec::new(), values: Vec::new() };
        core::mem::swap(self, &mut taken);
        let NameTable { mut keys, mut values } = taken;
        let ghost old_keys = keys@;
        let ghost old_values = values@;
        match found {
            Some(i) => {
                values.set(i, value);
                proof {
                    assert forall|k: Seq<char>| has_key(old_keys, k) implies #[trigger] values@[key_index(
                        old_keys,
                        k,
                    )] == old(self)@.insert(key@, value)[k] by {
                        let j = key_index(old_keys, k);
                        assert(old_keys[j]@ == k);
                        assert(old_keys[i as int]@ == key@);
                    }
                }
            },
            None => {
                keys.push(key);
                values.push(value);
                proof {
                    let n = old_keys.len() as int;
                    assert(keys@[n]@ == key@);
                    assert forall|k: Seq<char>| has_key(keys@, k) <==> (has_key(old_keys, k) || k
                        == key@) by {
                        if has_key(old_keys, k) {
                            let j = key_index(old_keys, k);
                            assert(keys@[j]@ == k);
                        }
                        if has_key(keys@, k) && k != key@ {
                            let j = key_index(keys@, k);
                            assert(old_keys[j]@ == k);
                        }
                    }
                    assert forall|k: Seq<char>| has_key(keys@, k) implies #[trigger] values@[key_index(
                        keys@,
                        k,
                    )] == old(self)@.insert(key@, value)[k] by {
                        let j = key_index(keys@, k);
                        assert(keys@[j]@ == k);
                        if k != key@ {
                            assert(old_keys[j]@ == k);
                            let j2 = key_index(old_keys, k);
                            assert(old_keys[j2]@ == k);
                            assert(j == j2);
                        } else {
                            assert(j == n);
                        }
                    }
                }
            },
        }
        *self = NameTable { keys, values };
        proof {
            assert(final(self)@ =~= old(self)@.insert(key@, value));
            if found is Some {
                assert(final(self).names() =~= old(self).names());
            } else {
                assert(final(self).names() =~= old(self).names().push(key@));
            }
        }
    }

    /// Removes `key` and hands out its value; the other names keep their
    /// order.
    pub fn remove(&mut self, key: &str) -> (r: Option<V>)
        ensures
            final(self)@ == old(self)@.remove(key@),
            match r {
                Some(value) => old(self)@.contains_key(key@) && value == old(self)@[key@]
                    && exists|i: int|
                    0 <= i < old(self).names().len() && #[trigger] old(self).names()[i] == key@
                        && final(self).names() == old(self).names().remove(i),
                None => !old(self)@.contains_key(key@) && final(self).names() == old(
                    self,
                ).names(),
            },
    {
        proof {
            use_type_invariant(&*self);
            self.lemma_indexed();
        }
        let found = self.position(key);
        match found {
            None => {
                assert(old(self)@.remove(key@) =~= old(self)@);
                None
            },
            Some(i) => {
                let mut taken: NameTable<V> = NameTable { keys: Vec::new(), values: Vec::new() };
                core::mem::swap(self, &mut taken);
                let NameTable { mut keys, mut values } = taken;
                let ghost old_keys = keys@;
                let ghost old_values = values@;
                let _ = keys.remove(i);
                let value = values.remove(i);
                proof {
                    assert(old_keys[i as int]@ == key@);
                    assert forall|a: int, b: int| 0 <= a < b < keys@.len() implies (
                    #[trigger] keys@[a])@ != (#[trigger] keys@[b])@ by {
                        let a2 = if a < i { a } else { a + 1 };
                        let b2 = if b < i { b } else { b + 1 };
                        assert(keys@[a] == old_keys[a2]);
                        assert(keys@[b] == old_keys[b2]);
                    }
                    assert forall|k: Seq<char>| has_key(keys@, k) <==> (has_key(old_keys, k) && k
                        != key@) by {
                        if has_key(keys@, k) {
                            let j = key_index(keys@, k);
                            let j2 = if j < i { j } else { j + 1 };
                            assert(keys@[j] == old_keys[j2]);
                            assert(old_keys[j2]@ == k);
                        }
                        if has_key(old_keys, k) && k != key@ {
                            let j = key_index(old_keys, k);
                            let j2 = if j < i { j } else { j - 1 };
                            assert(keys@[j2] == old_keys[j]);
                            assert(keys@[j2]@ == k);
                        }
                    }
                    assert forall|k: Seq<char>| has_key(keys@, k) implies #[trigger] values@[key_index(
                        keys@,
                        k,
                    )] == old_values[key_index(old_keys, k)] by {
                        let j = key_index(keys@, k);
                        let j2 = if j < i { j } else { j + 1 };
                        assert(keys@[j] == old_keys[j2]);
                        assert(old_keys[j2]@ == k);
                        let j3 = key_index(old_keys, k);
                        assert(old_keys[j3]@ == k);
                        assert(j2 == j3);
                    }
                    let j0 = key_index(old_keys, key@);
                    assert(old_keys[j0]@ == key@);
                    assert(j0 == i);
                }
                *self = NameTable { keys, values };
                assert(final(self)@ =~= old(self)@.remove(key@));
                assert(old(self).names()[i as int] == key@);
                assert(final(self).names() =~= old(self).names().remove(i as int));
                Some(value)
            },
        }
    }
}

} // verus!
