//! The key-value store that holds all state: what the checks ask of it,
//! and a store in memory that meets it.

use crate::text::same_str;
use vstd::prelude::*;

verus! {

/// A flat store of byte values under string keys.
///
/// Every operation may fail. A failed operation changes nothing, and a
/// store that is `dependable` never fails: contracts in this crate promise
/// their full effect for dependable stores and say what is left of it
/// otherwise.
pub trait KeyValueStore {
    /// What the store holds.
    spec fn contents(&self) -> Map<Seq<char>, Seq<u8>>;

    /// Whether no operation on this store fails.
    spec fn dependable(&self) -> bool;

    /// The value under `key`, if there is one.
    fn get(&self, key: &str) -> (r: Result<Option<Vec<u8>>, ()>)
        ensures
            self.dependable() ==> r is Ok,
            match r {
                Ok(Some(v)) => self.contents().contains_key(key@) && self.contents()[key@] == v@,
                Ok(None) => !self.contents().contains_key(key@),
                Err(_) => true,
            },
    ;

    /// Puts `value` under `key`, replacing what was there.
    fn set(&mut self, key: &str, value: &[u8]) -> (r: Result<(), ()>)
        ensures
            final(self).dependable() == old(self).dependable(),
            old(self).dependable() ==> r is Ok,
            r is Ok ==> final(self).contents() == old(self).contents().insert(key@, value@),
            r is Err ==> final(self).contents() == old(self).contents(),
    ;

    /// Removes `key` and its value; an absent key is no failure.
    fn delete(&mut self, key: &str) -> (r: Result<(), ()>)
        ensures
            final(self).dependable() == old(self).dependable(),
            old(self).dependable() ==> r is Ok,
            r is Ok ==> final(self).contents() == old(self).contents().remove(key@),
            r is Err ==> final(self).contents() == old(self).contents(),
    ;

    /// Every key of the store, each once, in no particular order.
    fn get_keys(&self) -> (r: Result<Vec<String>, ()>)
        ensures
            self.dependable() ==> r is Ok,
            match r {
                Ok(keys) => lists_keys(keys@, self.contents()),
                Err(_) => true,
            },
    ;
}

/// Whether `a` and `b` hold the same under `key`.
pub open spec fn agree_at(
    a: Map<Seq<char>, Seq<u8>>,
    b: Map<Seq<char>, Seq<u8>>,
    key: Seq<char>,
) -> bool {
    a.contains_key(key) == b.contains_key(key) && (a.contains_key(key) ==> a[key] == b[key])
}

/// Whether `a` and `b` hold the same under every key but `key`.
pub open spec fn same_but_at(
    a: Map<Seq<char>, Seq<u8>>,
    b: Map<Seq<char>, Seq<u8>>,
    key: Seq<char>,
) -> bool {
    forall|k: Seq<char>|
        k != key ==> (a.contains_key(k) == b.contains_key(k) && (a.contains_key(k) ==> a[k]
            == b[k]))
}

/// Whether `k` is one of `keys`.
pub open spec fn listed(keys: Seq<String>, k: Seq<char>) -> bool {
    exists|i: int| 0 <= i < keys.len() && #[trigger] keys[i]@ == k
}

/// Whether `keys` names each key of `m` once and nothing else.
pub open spec fn lists_keys(keys: Seq<String>, m: Map<Seq<char>, Seq<u8>>) -> bool {
    &&& forall|i: int| 0 <= i < keys.len() ==> m.contains_key(#[trigger] keys[i]@)
    &&& forall|k: Seq<char>| m.contains_key(k) ==> listed(keys, k)
    &&& forall|i: int, j: int| 0 <= i < j < keys.len() ==> #[trigger] keys[i]@ != #[trigger] keys[j]@
}

/// A store in memory. It never fails.
pub struct MemStore {
    entries: Vec<(String, Vec<u8>)>,
}

/// The value of the first entry under the key `k`.
spec fn lookup(entries: Seq<(String, Vec<u8>)>, k: Seq<char>) -> Option<Seq<u8>>
    decreases entries.len(),
{
    if entries.len() == 0 {
        None
    } else if entries[0].0@ == k {
        Some(entries[0].1@)
    } else {
        lookup(entries.skip(1), k)
    }
}

/// The map that a list of entries stands for: of two entries under one key
/// the first counts.
spec fn map_of(entries: Seq<(String, Vec<u8>)>) -> Map<Seq<char>, Seq<u8>> {
    Map::new(|k: Seq<char>| lookup(entries, k) is Some, |k: Seq<char>| lookup(entries, k)->0)
}

proof fn lemma_lookup_first(entries: Seq<(String, Vec<u8>)>, k: Seq<char>, i: int)
    requires
        0 <= i < entries.len(),
        entries[i].0@ == k,
        forall|j: int| 0 <= j < i ==> (#[trigger] entries[j]).0@ != k,
    ensures
        lookup(entries, k) == Some(entries[i].1@),
    decreases entries.len(),
{
    if i > 0 {
        let rest = entries.skip(1);
        assert(entries[0].0@ != k);
        assert forall|j: int| 0 <= j < i - 1 implies (#[trigger] rest[j]).0@ != k by {
            assert(rest[j] == entries[j + 1]);
        }
        lemma_lookup_first(rest, k, i - 1);
    }
}

proof fn lemma_lookup_none(entries: Seq<(String, Vec<u8>)>, k: Seq<char>)
    requires
        forall|j: int| 0 <= j < entries.len() ==> (#[trigger] entries[j]).0@ != k,
    ensures
        lookup(entries, k) is None,
    decreases entries.len(),
{
    if entries.len() > 0 {
        let rest = entries.skip(1);
        assert(entries[0].0@ != k);
        assert forall|j: int| 0 <= j < rest.len() implies (#[trigger] rest[j]).0@ != k by {
            assert(rest[j] == entries[j + 1]);
        }
        lemma_lookup_none(rest, k);
    }
}

/// A key that is found stands at some index, and at none before it.
proof fn lemma_lookup_some(entries: Seq<(String, Vec<u8>)>, k: Seq<char>) -> (i: int)
    requires
        lookup(entries, k) is Some,
    ensures
        0 <= i < entries.len(),
        entries[i].0@ == k,
        lookup(entries, k) == Some(entries[i].1@),
        forall|j: int| 0 <= j < i ==> (#[trigger] entries[j]).0@ != k,
    decreases entries.len(),
{
    if entries[0].0@ == k {
        0
    } else {
        let rest = entries.skip(1);
        let i = lemma_lookup_some(rest, k);
        assert(rest[i] == entries[i + 1]);
        assert forall|j: int| 0 <= j < i + 1 implies (#[trigger] entries[j]).0@ != k by {
            if j > 0 {
                assert(rest[j - 1] == entries[j]);
            }
        }
        i + 1
    }
}

/// Replacing an entry by one under another key than `k`, itself under
/// another key than `k`, changes nothing under `k`.
proof fn lemma_lookup_update(
    entries: Seq<(String, Vec<u8>)>,
    i: int,
    e: (String, Vec<u8>),
    k: Seq<char>,
)
    requires
        0 <= i < entries.len(),
        entries[i].0@ != k,
        e.0@ != k,
    ensures
        lookup(entries.update(i, e), k) == lookup(entries, k),
    decreases entries.len(),
{
    let after = entries.update(i, e);
    if i == 0 {
        assert(after.skip(1) =~= entries.skip(1));
    } else {
        assert(after[0] == entries[0]);
        assert(after.skip(1) =~= entries.skip(1).update(i - 1, e));
        lemma_lookup_update(entries.skip(1), i - 1, e, k);
    }
}

/// An entry added at the end counts where no earlier one has its key.
proof fn lemma_lookup_push(entries: Seq<(String, Vec<u8>)>, e: (String, Vec<u8>), k: Seq<char>)
    ensures
        lookup(entries.push(e), k) == if lookup(entries, k) is Some {
            lookup(entries, k)
        } else if e.0@ == k {
            Some(e.1@)
        } else {
            None
        },
    decreases entries.len(),
{
    let after = entries.push(e);
    if entries.len() == 0 {
        assert(after.skip(1) =~= Seq::<(String, Vec<u8>)>::empty());
        assert(lookup(after.skip(1), k) is None);
        assert(after[0] == e);
    } else {
        assert(after[0] == entries[0]);
        assert(after.skip(1) =~= entries.skip(1).push(e));
        lemma_lookup_push(entries.skip(1), e, k);
    }
}

/// Removing an entry under another key than `k` changes nothing under `k`.
proof fn lemma_lookup_remove(entries: Seq<(String, Vec<u8>)>, i: int, k: Seq<char>)
    requires
        0 <= i < entries.len(),
        entries[i].0@ != k,
    ensures
        lookup(entries.remove(i), k) == lookup(entries, k),
    decreases entries.len(),
{
    let after = entries.remove(i);
    if i == 0 {
        assert(after =~= entries.skip(1));
    } else {
        assert(after[0] == entries[0]);
        assert(after.skip(1) =~= entries.skip(1).remove(i - 1));
        lemma_lookup_remove(entries.skip(1), i - 1, k);
    }
}

impl MemStore {
    /// An empty store.
    pub fn new() -> (s: Self)
        ensures
            s.contents() == Map::<Seq<char>, Seq<u8>>::empty(),
            s.dependable(),
    {
        let s = MemStore { entries: Vec::new() };
        assert(s.contents() =~= Map::<Seq<char>, Seq<u8>>::empty());
        s
    }

    /// The index of the first entry under `key`, if there is one.
    fn position(&self, key: &str) -> (r: Option<usize>)
        ensures
            match r {
                Some(i) => i < self.entries.len() && self.entries[i as int].0@ == key@
                    && lookup(self.entries@, key@) == Some(self.entries[i as int].1@)
                    && forall|j: int| 0 <= j < i ==> (#[trigger] self.entries[j]).0@ != key@,
                None => lookup(self.entries@, key@) is None && forall|j: int|
                    0 <= j < self.entries.len() ==> (#[trigger] self.entries[j]).0@ != key@,
            },
    {
        let mut i: usize = 0;
        while i < self.entries.len()
            invariant
                i <= self.entries.len(),
                forall|j: int| 0 <= j < i ==> (#[trigger] self.entries[j]).0@ != key@,
            decreases self.entries.len() - i,
        {
            if same_str(self.entries[i].0.as_str(), key) {
                proof {
                    lemma_lookup_first(self.entries@, key@, i as int);
                }
                return Some(i);
            }
            i = i + 1;
        }
        proof {
            lemma_lookup_none(self.entries@, key@);
        }
        None
    }
}

impl KeyValueStore for MemStore {
    closed spec fn contents(&self) -> Map<Seq<char>, Seq<u8>> {
        map_of(self.entries@)
    }

    open spec fn dependable(&self) -> bool {
        true
    }

    fn get(&self, key: &str) -> (r: Result<Option<Vec<u8>>, ()>) {
        match self.position(key) {
            Some(i) => Ok(Some(self.entries[i].1.clone())),
            None => Ok(None),
        }
    }

    fn set(&mut self, key: &str, value: &[u8]) -> (r: Result<(), ()>) {
        let ghost before = self.entries@;
        let entry = (key.to_owned(), vstd::slice::slice_to_vec(value));
        match self.position(key) {
            Some(i) => {
                self.entries[i] = entry;
                proof {
                    let after = self.entries@;
                    assert forall|j: int| 0 <= j < i implies (#[trigger] after[j]).0@ != key@ by {
                        assert(after[j] == before[j]);
                    }
                    lemma_lookup_first(after, key@, i as int);
                    assert forall|k: Seq<char>| k != key@ implies lookup(after, k) == lookup(
                        before,
                        k,
                    ) by {
                        lemma_lookup_update(before, i as int, entry, k);
                    }
                }
            },
            None => {
                self.entries.push(entry);
                proof {
                    let after = self.entries@;
                    assert forall|k: Seq<char>| lookup(after, k) == if k == key@ {
                        Some(value@)
                    } else {
                        lookup(before, k)
                    } by {
                        lemma_lookup_push(before, entry, k);
                    }
                }
            },
        }
        assert(map_of(self.entries@) =~= map_of(before).insert(key@, value@));
        Ok(())
    }

    fn delete(&mut self, key: &str) -> (r: Result<(), ()>) {
        let ghost before = self.entries@;
        let mut i: usize = 0;
        while i < self.entries.len()
            invariant
                i <= self.entries.len(),
                forall|j: int| 0 <= j < i ==> (#[trigger] self.entries[j]).0@ != key@,
                forall|k: Seq<char>| k != key@ ==> lookup(self.entries@, k) == lookup(before, k),
            decreases self.entries.len() - i,
        {
            if same_str(self.entries[i].0.as_str(), key) {
                let ghost prior = self.entries@;
                self.entries.remove(i);
                proof {
                    let after = self.entries@;
                    assert forall|j: int| 0 <= j < i implies (#[trigger] after[j]).0@ != key@ by {
                        assert(after[j] == prior[j]);
                    }
                    assert forall|k: Seq<char>| k != key@ implies lookup(after, k) == lookup(
                        before,
                        k,
                    ) by {
                        lemma_lookup_remove(prior, i as int, k);
                    }
                }
            } else {
                i = i + 1;
            }
        }
        proof {
            lemma_lookup_none(self.entries@, key@);
            assert(map_of(self.entries@) =~= map_of(before).remove(key@));
        }
        Ok(())
    }

    fn get_keys(&self) -> (r: Result<Vec<String>, ()>) {
        let mut keys: Vec<String> = Vec::new();
        let mut i: usize = 0;
        let ghost m = map_of(self.entries@);
        while i < self.entries.len()
            invariant
                i <= self.entries.len(),
                m == map_of(self.entries@),
                forall|j: int| 0 <= j < keys.len() ==> m.contains_key(#[trigger] keys[j]@),
                forall|a: int, b: int|
                    0 <= a < b < keys.len() ==> #[trigger] keys[a]@ != #[trigger] keys[b]@,
                forall|j: int| 0 <= j < i ==> listed(keys@, (#[trigger] self.entries[j]).0@),
                forall|a: int| 0 <= a < keys.len() ==> keyed(self.entries@, i as int, #[trigger] keys[a]@),
            decreases self.entries.len() - i,
        {
            let found = self.position(self.entries[i].0.as_str());
            let ghost old_keys = keys@;
            let ghost k = self.entries[i as int].0@;
            match found {
                Some(first) => {
                    if first == i {
                        keys.push(self.entries[i].0.clone());
                        proof {
                            let n = old_keys.len() as int;
                            assert(keys[n]@ == k);
                            assert forall|a: int| 0 <= a < n implies #[trigger] keys[a]@
                                != keys[n]@ by {
                                assert(keys[a] == old_keys[a]);
                                assert(keyed(self.entries@, i as int, old_keys[a]@));
                                if keys[a]@ == k {
                                    let j = choose|j: int|
                                        0 <= j < i && (#[trigger] self.entries@[j]).0@ == k;
                                    let f = lemma_lookup_some(self.entries@, k);
                                }
                            }
                            assert forall|j: int| 0 <= j < i + 1 implies listed(
                                keys@,
                                (#[trigger] self.entries[j]).0@,
                            ) by {
                                if j < i {
                                    assert(listed(old_keys, self.entries[j].0@));
                                    let a = choose|a: int|
                                        0 <= a < old_keys.len() && #[trigger] old_keys[a]@
                                            == self.entries[j].0@;
                                    assert(keys[a] == old_keys[a]);
                                } else {
                                    assert(keys[n]@ == self.entries[j].0@);
                                }
                            }
                            assert forall|a: int| 0 <= a < keys.len() implies keyed(
                                self.entries@,
                                i + 1,
                                #[trigger] keys[a]@,
                            ) by {
                                if a < n {
                                    assert(keys[a] == old_keys[a]);
                                    assert(keyed(self.entries@, i as int, old_keys[a]@));
                                    let j = choose|j: int|
                                        0 <= j < i && (#[trigger] self.entries@[j]).0@
                                            == old_keys[a]@;
                                    assert(self.entries@[j].0@ == keys[a]@);
                                } else {
                                    assert(self.entries@[i as int].0@ == keys[a]@);
                                }
                            }
                            assert forall|j: int| 0 <= j < keys.len() implies m.contains_key(
                                #[trigger] keys[j]@,
                            ) by {
                                if j < n {
                                    assert(keys[j] == old_keys[j]);
                                }
                            }
                        }
                    } else {
                        proof {
                            let f = lemma_lookup_some(self.entries@, k);
                            assert(first < i);
                            assert(listed(keys@, self.entries[first as int].0@));
                            assert forall|a: int| 0 <= a < keys.len() implies keyed(
                                self.entries@,
                                i + 1,
                                #[trigger] keys[a]@,
                            ) by {
                                assert(keyed(self.entries@, i as int, keys[a]@));
                                let j = choose|j: int|
                                    0 <= j < i && (#[trigger] self.entries@[j]).0@ == keys[a]@;
                                assert(self.entries@[j].0@ == keys[a]@);
                            }
                        }
                    }
                },
                None => {
                    assert(false);
                },
            }
            i = i + 1;
        }
        proof {
            assert forall|k: Seq<char>| m.contains_key(k) implies listed(keys@, k) by {
                let j = lemma_lookup_some(self.entries@, k);
                assert(listed(keys@, self.entries[j].0@));
            }
        }
        Ok(keys)
    }
}

/// Whether one of the first `n` entries has the key `k`.
spec fn keyed(entries: Seq<(String, Vec<u8>)>, n: int, k: Seq<char>) -> bool {
    exists|j: int| 0 <= j < n && (#[trigger] entries[j]).0@ == k
}

} // verus!

verus! {

/// A store that can be cut off from what it holds: while `down` is set,
/// every operation fails and changes nothing.
pub struct Breakable<S: KeyValueStore> {
    /// The store behind.
    pub inner: S,
    /// Whether the store is cut off.
    pub down: bool,
}

impl<S: KeyValueStore> KeyValueStore for Breakable<S> {
    open spec fn contents(&self) -> Map<Seq<char>, Seq<u8>> {
        self.inner.contents()
    }

    open spec fn dependable(&self) -> bool {
        !self.down && self.inner.dependable()
    }

    fn get(&self, key: &str) -> (r: Result<Option<Vec<u8>>, ()>) {
        if self.down {
            Err(())
        } else {
            self.inner.get(key)
        }
    }

    fn set(&mut self, key: &str, value: &[u8]) -> (r: Result<(), ()>) {
        if self.down {
            Err(())
        } else {
            self.inner.set(key, value)
        }
    }

    fn delete(&mut self, key: &str) -> (r: Result<(), ()>) {
        if self.down {
            Err(())
        } else {
            self.inner.delete(key)
        }
    }

    fn get_keys(&self) -> (r: Result<Vec<String>, ()>) {
        if self.down {
            Err(())
        } else {
            self.inner.get_keys()
        }
    }
}

} // verus!
