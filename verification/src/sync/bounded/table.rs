use vstd::laws_eq::obeys_concrete_eq;
use vstd::prelude::*;

verus! {

/// A map that holds at most `N` entries, in the order in which their keys
/// were first inserted. Keys are found by comparing them with `==`. Room for
/// all `N` entries is taken when the table is made.
pub(crate) struct Table<K, V, const N: usize> {
    pub(crate) keys: Vec<K>,
    pub(crate) values: Vec<V>,
}

/// What `keys` and `values` hold as a map: the value at the place of each key.
pub(crate) open spec fn pairing<K, V>(keys: Seq<K>, values: Seq<V>) -> Map<K, V> {
    Map::new(|key: K| keys.contains(key), |key: K| values[keys.index_of(key)])
}

/// In a sequence without duplicates a key is found where it stands.
pub(crate) proof fn lemma_index_of<K>(keys: Seq<K>, i: int)
    requires
        keys.no_duplicates(),
        0 <= i < keys.len(),
    ensures
        keys.contains(keys[i]),
        keys.index_of(keys[i]) == i,
{
}

/// Replacing the value at one place replaces what the map holds under the key
/// of that place, and nothing else.
pub(crate) proof fn lemma_pairing_update<K, V>(keys: Seq<K>, values: Seq<V>, i: int, value: V)
    requires
        keys.no_duplicates(),
        keys.len() == values.len(),
        0 <= i < keys.len(),
    ensures
        pairing(keys, values.update(i, value)) == pairing(keys, values).insert(keys[i], value),
{
    lemma_index_of(keys, i);
    assert forall|key: K| keys.contains(key) implies #[trigger] pairing(
        keys,
        values.update(i, value),
    )[key] == pairing(keys, values).insert(keys[i], value)[key] by {
        let j = keys.index_of(key);
        lemma_index_of(keys, j);
    }
    assert(pairing(keys, values.update(i, value)) =~= pairing(keys, values).insert(
        keys[i],
        value,
    ));
}

/// A pair added behind the others, under a key that is new, is an insertion
/// into the map.
pub(crate) proof fn lemma_pairing_push<K, V>(keys: Seq<K>, values: Seq<V>, key: K, value: V)
    requires
        keys.no_duplicates(),
        keys.len() == values.len(),
        !keys.contains(key),
    ensures
        keys.push(key).no_duplicates(),
        pairing(keys.push(key), values.push(value)) == pairing(keys, values).insert(key, value),
{
    let longer = keys.push(key);
    assert forall|i: int, j: int| 0 <= i < longer.len() && 0 <= j < longer.len() && i != j implies longer[i]
        != longer[j] by {
        if i < keys.len() {
            assert(keys.contains(longer[i]));
        }
        if j < keys.len() {
            assert(keys.contains(longer[j]));
        }
    }
    assert(longer[keys.len() as int] == key);
    assert forall|other: K| longer.contains(other) <==> (other == key || keys.contains(other)) by {
        if keys.contains(other) {
            let i = keys.index_of(other);
            assert(longer[i] == other);
        }
    }
    assert forall|other: K| longer.contains(other) implies #[trigger] pairing(
        longer,
        values.push(value),
    )[other] == pairing(keys, values).insert(key, value)[other] by {
        let j = longer.index_of(other);
        lemma_index_of(longer, j);
        if other != key {
            let i = keys.index_of(other);
            assert(longer[i] == other);
            lemma_index_of(longer, i);
        }
    }
    assert(pairing(longer, values.push(value)) =~= pairing(keys, values).insert(key, value));
}

/// A map made of a sequence of distinct keys has as many entries as the
/// sequence has keys.
pub(crate) proof fn lemma_pairing_len<K, V>(keys: Seq<K>, values: Seq<V>)
    requires
        keys.no_duplicates(),
    ensures
        pairing(keys, values).dom().finite(),
        pairing(keys, values).dom().len() == keys.len(),
{
    keys.unique_seq_to_set();
    vstd::seq_lib::seq_to_set_is_finite(keys);
    assert(pairing(keys, values).dom() =~= keys.to_set());
}

impl<K, V, const N: usize> Table<K, V, N> {
    /// Keys are distinct, each has its value, and there are at most `N`.
    pub(crate) open spec fn inv(&self) -> bool {
        &&& self.keys@.len() == self.values@.len()
        &&& self.keys@.len() <= N
        &&& self.keys@.no_duplicates()
    }

    pub(crate) open spec fn entries(&self) -> Map<K, V> {
        pairing(self.keys@, self.values@)
    }

    pub(crate) fn new() -> (table: Self)
        ensures
            table.inv(),
            table.keys@.len() == 0,
            table.entries() == Map::<K, V>::empty(),
    {
        let table = Table { keys: Vec::with_capacity(N), values: Vec::with_capacity(N) };
        assert(table.entries() =~= Map::<K, V>::empty());
        table
    }

    /// The number of entries.
    pub(crate) fn len(&self) -> (n: usize)
        requires
            self.inv(),
        ensures
            n == self.entries().dom().len(),
            n <= N,
            self.entries().dom().finite(),
    {
        proof {
            lemma_pairing_len(self.keys@, self.values@);
        }
        self.keys.len()
    }
}

impl<K, V, const N: usize> Table<K, V, N> {
    /// A table whose value at place `i` was replaced holds the new value
    /// under the key of that place, and is otherwise as it was.
    pub(crate) proof fn lemma_replaced(before: &Self, after: &Self, i: int)
        requires
            before.inv(),
            0 <= i < before.keys@.len(),
            after.keys@ == before.keys@,
            after.values@ == before.values@.update(i, after.values@[i]),
        ensures
            after.inv(),
            before.entries().contains_key(before.keys@[i]),
            after.entries() == before.entries().insert(before.keys@[i], after.values@[i]),
            after.entries()[before.keys@[i]] == after.values@[i],
    {
        lemma_pairing_update(before.keys@, before.values@, i, after.values@[i]);
        lemma_index_of(before.keys@, i);
    }
}

impl<K: PartialEq, V, const N: usize> Table<K, V, N> {
    /// The place of `key`, if the table holds it.
    pub(crate) fn position(&self, key: &K) -> (found: Option<usize>)
        requires
            self.inv(),
            obeys_concrete_eq::<K>(),
        ensures
            found is Some <==> self.entries().contains_key(*key),
            found matches Some(i) ==> i < self.keys@.len() && self.keys@[i as int] == *key
                && self.entries()[*key] == self.values@[i as int],
    {
        let mut i: usize = 0;
        while i < self.keys.len()
            invariant
                i <= self.keys.len(),
                self.inv(),
                obeys_concrete_eq::<K>(),
                forall|j: int| 0 <= j < i ==> self.keys@[j] != *key,
            decreases self.keys.len() - i,
        {
            proof {
                reveal(obeys_concrete_eq);
            }
            if self.keys[i] == *key {
                proof {
                    lemma_index_of(self.keys@, i as int);
                }
                return Some(i);
            }
            i += 1;
        }
        None
    }

    /// Adds `value` under `key`, which the table does not hold yet. Where the
    /// table is full, it stays as it is and the pair comes back.
    pub(crate) fn insert_new(&mut self, key: K, value: V) -> (result: Result<(), (K, V)>)
        requires
            old(self).inv(),
            !old(self).entries().contains_key(key),
        ensures
            final(self).inv(),
            result is Ok <==> old(self).entries().dom().len() < N,
            result is Ok ==> final(self).entries() == old(self).entries().insert(key, value),
            result is Ok ==> final(self).keys@ == old(self).keys@.push(key),
            result is Ok ==> final(self).values@ == old(self).values@.push(value),
            result matches Err(pair) ==> pair == (key, value) && *final(self) == *old(self),
    {
        proof {
            lemma_pairing_len(self.keys@, self.values@);
        }
        if self.keys.len() >= N {
            return Err((key, value));
        }
        proof {
            lemma_pairing_push(self.keys@, self.values@, key, value);
        }
        self.keys.push(key);
        self.values.push(value);
        Ok(())
    }
}

} // verus!
