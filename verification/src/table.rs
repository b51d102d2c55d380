//! Lookup by name.
//!
//! The hash tables are those of the `hashbrown` crate. [`Index`] and
//! [`KeySet`] hold one each and say, without proof, what its methods do to its
//! contents. [`Table`] is built on an [`Index`] and is verified against that.

use vstd::prelude::*;

verus! {

broadcast use vstd::seq::group_seq_axioms;

/// A `hashbrown::HashMap` from names to positions.
#[verifier::external_body]
#[derive(Debug)]
pub struct Index {
    inner: hashbrown::HashMap<String, usize>,
}

/// What an [`Index`] holds: for each name in it, the position it is bound to.
pub uninterp spec fn index_entries(index: Index) -> Map<Seq<char>, usize>;

/// A `hashbrown::HashSet` of names.
#[verifier::external_body]
#[derive(Debug)]
pub struct KeySet {
    inner: hashbrown::HashSet<String>,
}

/// What a [`KeySet`] holds.
pub uninterp spec fn key_set_items(set: KeySet) -> Set<Seq<char>>;

impl Index {
    /// `hashbrown::HashMap::new`: a map that holds nothing.
    #[verifier::external_body]
    pub(crate) fn new() -> (index: Index)
        ensures
            forall|k: Seq<char>| !index_entries(index).dom().contains(k),
    {
        Index { inner: hashbrown::HashMap::new() }
    }

    /// `hashbrown::HashMap::insert`: afterwards `key` is bound to `slot`, whether
    /// or not it was bound before, and every other name is as it was.
    #[verifier::external_body]
    pub(crate) fn insert(&mut self, key: String, slot: usize)
        ensures
            index_entries(*final(self)) == index_entries(*old(self)).insert(key@, slot),
    {
        self.inner.insert(key, slot);
    }

    /// `hashbrown::HashMap::get`: the position that `key` is bound to, or
    /// nothing where the map has no such name.
    #[verifier::external_body]
    pub(crate) fn get(&self, key: &str) -> (slot: Option<usize>)
        ensures
            slot is Some <==> index_entries(*self).dom().contains(key@),
            slot matches Some(s) ==> index_entries(*self)[key@] == s,
    {
        self.inner.get(key).copied()
    }
}

impl KeySet {
    /// `hashbrown::HashSet::new`: a set that holds nothing.
    #[verifier::external_body]
    pub(crate) fn new() -> (set: KeySet)
        ensures
            forall|k: Seq<char>| !key_set_items(set).contains(k),
    {
        KeySet { inner: hashbrown::HashSet::new() }
    }

    /// `hashbrown::HashSet::insert`: afterwards the set holds `key` besides
    /// what it held.
    #[verifier::external_body]
    pub(crate) fn insert(&mut self, key: String)
        ensures
            key_set_items(*final(self)) == key_set_items(*old(self)).insert(key@),
    {
        self.inner.insert(key);
    }

    /// `hashbrown::HashSet::contains`: whether the set holds `key`.
    #[verifier::external_body]
    pub(crate) fn contains(&self, key: &str) -> (r: bool)
        ensures
            r == key_set_items(*self).contains(key@),
    {
        self.inner.contains(key)
    }

    /// `hashbrown::HashSet::remove`: afterwards the set holds what it held but
    /// for `key`.
    #[verifier::external_body]
    pub(crate) fn remove(&mut self, key: &str)
        ensures
            key_set_items(*final(self)) == key_set_items(*old(self)).remove(key@),
    {
        self.inner.remove(key);
    }
}

impl KeySet {
    /// The set of the names `keys`.
    pub fn of(keys: &Vec<String>) -> (set: KeySet)
        ensures
            forall|k: Seq<char>|
                key_set_items(set).contains(k) <==> exists|i: int|
                    0 <= i < keys.len() && (#[trigger] keys[i])@ == k,
    {
        let mut set = KeySet::new();
        let mut i: usize = 0;
        while i < keys.len()
            invariant
                i <= keys.len(),
                forall|k: Seq<char>|
                    key_set_items(set).contains(k) <==> exists|j: int|
                        0 <= j < i && (#[trigger] keys[j])@ == k,
            decreases keys.len() - i,
        {
            let ghost before = key_set_items(set);
            set.insert(keys[i].clone());
            proof {
                assert forall|k: Seq<char>| key_set_items(set).contains(k) <==> exists|j: int|
                    0 <= j < i + 1 && (#[trigger] keys[j])@ == k by {
                    if key_set_items(set).contains(k) {
                        if k == keys[i as int]@ {
                        } else {
                            assert(before.contains(k));
                            let j = choose|j: int| 0 <= j < i && (#[trigger] keys[j])@ == k;
                            assert(keys[j]@ == k);
                        }
                    }
                    if exists|j: int| 0 <= j < i + 1 && (#[trigger] keys[j])@ == k {
                        let j = choose|j: int| 0 <= j < i + 1 && (#[trigger] keys[j])@ == k;
                        if j < i {
                            assert(before.contains(k));
                        }
                    }
                }
            }
            i = i + 1;
        }
        set
    }

    /// Whether the set holds `key`.
    pub fn holds(&self, key: &str) -> (r: bool)
        ensures
            r == key_set_items(*self).contains(key@),
    {
        self.contains(key)
    }
}

/// The map that binds no name.
pub open spec fn no_entries<T>() -> Map<Seq<char>, T> {
    Map::empty()
}

/// Values that are found by name.
///
/// The values stand in the order in which they came; a name is bound to one of
/// them, and several names may be bound to the same one.
#[derive(Debug)]
pub struct Table<T> {
    index: Index,
    values: Vec<T>,
}

impl<T> Table<T> {
    /// Every name is bound to a value that is there.
    #[verifier::type_invariant]
    spec fn bound_in_range(self) -> bool {
        forall|k: Seq<char>| #[trigger]
            index_entries(self.index).dom().contains(k) ==> index_entries(self.index)[k]
                < self.values.len()
    }

    /// The value that each name is bound to.
    pub closed spec fn entries(self) -> Map<Seq<char>, T> {
        Map::new(
            |k: Seq<char>| index_entries(self.index).dom().contains(k),
            |k: Seq<char>| self.values[index_entries(self.index)[k] as int],
        )
    }

    /// The values in the order in which they came.
    pub closed spec fn order(self) -> Seq<T> {
        self.values@
    }

    /// Whether `key` is bound.
    pub open spec fn has(self, key: Seq<char>) -> bool {
        self.entries().dom().contains(key)
    }

    /// The place in the order of the value that `key` is bound to.
    pub closed spec fn slot(self, key: Seq<char>) -> int {
        index_entries(self.index)[key] as int
    }

    /// A table without names or values.
    pub fn new() -> (table: Table<T>)
        ensures
            table.entries() == no_entries::<T>(),
            table.order().len() == 0,
    {
        let table = Table { index: Index::new(), values: Vec::new() };
        assert(table.entries() =~= no_entries::<T>());
        table
    }

    /// The value that `key` is bound to.
    pub fn get(&self, key: &str) -> (r: Option<&T>)
        ensures
            r is Some <==> self.has(key@),
            r matches Some(v) ==> *v == self.entries()[key@],
    {
        proof {
            use_type_invariant(self);
        }
        match self.index.get(key) {
            Some(slot) => Some(&self.values[slot]),
            None => None,
        }
    }

    /// Whether `key` is bound to a value.
    pub fn contains_key(&self, key: &str) -> (r: bool)
        ensures
            r == self.has(key@),
    {
        self.index.get(key).is_some()
    }

    /// The values in the order in which they came.
    pub fn values(&self) -> (r: &Vec<T>)
        ensures
            r@ == self.order(),
    {
        &self.values
    }

    /// Adds a value that no name is bound to yet, and gives its position.
    pub fn push(&mut self, value: T) -> (slot: usize)
        ensures
            final(self).entries() == old(self).entries(),
            final(self).order() == old(self).order().push(value),
            slot == old(self).order().len(),
    {
        proof {
            use_type_invariant(&*self);
        }
        let mut taken = Table::new();
        core::mem::swap(self, &mut taken);
        let Table { index, mut values } = taken;
        let slot = values.len();
        values.push(value);
        *self = Table { index, values };
        assert(final(self).entries() =~= old(self).entries());
        slot
    }

    /// Binds `key` to the value at `slot`.
    pub fn bind(&mut self, key: String, slot: usize)
        requires
            slot < old(self).order().len(),
        ensures
            final(self).entries() == old(self).entries().insert(key@, old(self).order()[slot as int]),
            final(self).order() == old(self).order(),
    {
        proof {
            use_type_invariant(&*self);
        }
        let mut taken = Table::new();
        core::mem::swap(self, &mut taken);
        let Table { mut index, values } = taken;
        index.insert(key, slot);
        *self = Table { index, values };
        assert(final(self).entries() =~= old(self).entries().insert(
            key@,
            old(self).order()[slot as int],
        ));
    }

    /// Adds a value and binds `key` to it. A value that `key` was bound to
    /// before stays in the order, without that name.
    pub fn insert(&mut self, key: String, value: T)
        ensures
            final(self).entries() == old(self).entries().insert(key@, value),
            final(self).order() == old(self).order().push(value),
    {
        let slot = self.push(value);
        self.bind(key, slot);
    }
}

} // verus!
