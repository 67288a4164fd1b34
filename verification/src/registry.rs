//! Verified key-value registries.
//!
//! Sessions, prepared transfers and pending offers are held in small
//! registries keyed by 128-bit identifiers; peers and paired devices in
//! registries keyed by peer-id strings.  Each is an association vector with
//! unique keys whose contracts speak of the map it represents; insertion
//! order is irrelevant to every caller.

use vstd::prelude::*;

verus! {

/// No key occurs twice.
pub open spec fn unique_keys<V>(s: Seq<(u128, V)>) -> bool {
    forall|i: int, j: int| 0 <= i < j < s.len() ==> (#[trigger] s[i]).0 != (#[trigger] s[j]).0
}

/// The map an association list stands for; a later entry would win, but
/// under [`unique_keys`] no key occurs twice.
pub open spec fn as_map<V>(s: Seq<(u128, V)>) -> Map<u128, V>
    decreases s.len(),
{
    if s.len() == 0 {
        Map::empty()
    } else {
        as_map(s.drop_last()).insert(s.last().0, s.last().1)
    }
}

/// A key is in the map exactly when some entry carries it.
pub proof fn lemma_as_map_contains<V>(s: Seq<(u128, V)>, k: u128)
    ensures
        as_map(s).contains_key(k) <==> exists|i: int| 0 <= i < s.len() && (#[trigger] s[i]).0 == k,
    decreases s.len(),
{
    if s.len() > 0 {
        lemma_as_map_contains(s.drop_last(), k);
        if s.last().0 == k {
            assert((#[trigger] s[s.len() - 1]).0 == k);
        } else {
            if as_map(s).contains_key(k) {
                let i = choose|i: int| 0 <= i < s.drop_last().len() && (#[trigger] s.drop_last()[i]).0 == k;
                assert(s[i].0 == k);
            }
            if exists|i: int| 0 <= i < s.len() && (#[trigger] s[i]).0 == k {
                let i = choose|i: int| 0 <= i < s.len() && (#[trigger] s[i]).0 == k;
                assert(i < s.len() - 1);
                assert(s.drop_last()[i].0 == k);
            }
        }
    }
}

/// Each entry's key maps to that entry's value.
pub proof fn lemma_as_map_index<V>(s: Seq<(u128, V)>, i: int)
    requires
        unique_keys(s),
        0 <= i < s.len(),
    ensures
        as_map(s).contains_key(s[i].0),
        as_map(s)[s[i].0] == s[i].1,
    decreases s.len(),
{
    if i == s.len() - 1 {
    } else {
        assert(unique_keys(s.drop_last()));
        lemma_as_map_index(s.drop_last(), i);
        assert(s[i].0 != s.last().0);
    }
}

/// Replacing the value of entry `i` inserts over its key.
pub proof fn lemma_as_map_update<V>(s: Seq<(u128, V)>, i: int, v: V)
    requires
        unique_keys(s),
        0 <= i < s.len(),
    ensures
        as_map(s.update(i, (s[i].0, v))) =~= as_map(s).insert(s[i].0, v),
        unique_keys(s.update(i, (s[i].0, v))),
    decreases s.len(),
{
    let k = s[i].0;
    let t = s.update(i, (k, v));
    assert(unique_keys(t)) by {
        assert(forall|a: int, b: int|
            0 <= a < b < t.len() ==> (#[trigger] t[a]).0 == s[a].0 && (#[trigger] t[b]).0
                == s[b].0);
    }
    if i == s.len() - 1 {
        assert(t.drop_last() =~= s.drop_last());
        assert(as_map(t) =~= as_map(s).insert(k, v));
    } else {
        assert(t.drop_last() =~= s.drop_last().update(i, (k, v)));
        assert(unique_keys(s.drop_last()));
        lemma_as_map_update(s.drop_last(), i, v);
        assert(k != s.last().0);
        assert(as_map(t) =~= as_map(s).insert(k, v));
    }
}

/// Appending a fresh key inserts it.
pub proof fn lemma_as_map_push<V>(s: Seq<(u128, V)>, k: u128, v: V)
    requires
        unique_keys(s),
        forall|i: int| 0 <= i < s.len() ==> (#[trigger] s[i]).0 != k,
    ensures
        as_map(s.push((k, v))) =~= as_map(s).insert(k, v),
        unique_keys(s.push((k, v))),
{
    assert(s.push((k, v)).drop_last() =~= s);
}

/// Deleting entry `i` removes its key.
pub proof fn lemma_as_map_remove<V>(s: Seq<(u128, V)>, i: int)
    requires
        unique_keys(s),
        0 <= i < s.len(),
    ensures
        as_map(s.subrange(0, i) + s.subrange(i + 1, s.len() as int)) =~= as_map(s).remove(s[i].0),
        unique_keys(s.subrange(0, i) + s.subrange(i + 1, s.len() as int)),
    decreases s.len(),
{
    let k = s[i].0;
    let t = s.subrange(0, i) + s.subrange(i + 1, s.len() as int);
    assert(unique_keys(t)) by {
        assert(forall|a: int|
            0 <= a < t.len() ==> (#[trigger] t[a]) == if a < i {
                s[a]
            } else {
                s[a + 1]
            });
    }
    if i == s.len() - 1 {
        assert(t =~= s.drop_last());
        lemma_as_map_contains(s.drop_last(), k);
        assert(!as_map(s.drop_last()).contains_key(k)) by {
            if as_map(s.drop_last()).contains_key(k) {
                let j = choose|j: int|
                    0 <= j < s.drop_last().len() && (#[trigger] s.drop_last()[j]).0 == k;
                assert(s[j].0 == k);
            }
        }
        assert(as_map(t) =~= as_map(s).remove(k));
    } else {
        assert(t.last() == s.last());
        assert(t.drop_last() =~= s.drop_last().subrange(0, i) + s.drop_last().subrange(
            i + 1,
            s.drop_last().len() as int,
        ));
        assert(unique_keys(s.drop_last()));
        lemma_as_map_remove(s.drop_last(), i);
        assert(k != s.last().0);
        assert(as_map(t) =~= as_map(s).remove(k));
    }
}

/// A registry keyed by 128-bit identifiers.
pub struct IdMap<V> {
    entries: Vec<(u128, V)>,
}

impl<V> IdMap<V> {
    /// The underlying entries, for contracts.
    pub closed spec fn spec_entries(&self) -> Seq<(u128, V)> {
        self.entries@
    }

    /// The map this registry holds.
    pub open spec fn view(&self) -> Map<u128, V> {
        as_map(self.spec_entries())
    }

    /// The registry invariant: no key occurs twice.
    pub open spec fn wf(&self) -> bool {
        unique_keys(self.spec_entries())
    }

    /// An empty registry.
    pub fn new() -> (r: Self)
        ensures
            r.wf(),
            r.view() =~= Map::<u128, V>::empty(),
            r.spec_entries().len() == 0,
    {
        IdMap { entries: Vec::new() }
    }

    /// How many entries the registry holds.
    pub fn len(&self) -> (r: usize)
        ensures
            r == self.spec_entries().len(),
    {
        self.entries.len()
    }

    /// Position of `key`, or the length when absent.
    fn position(&self, key: u128) -> (r: usize)
        ensures
            r <= self.spec_entries().len(),
            r < self.spec_entries().len() ==> self.spec_entries()[r as int].0 == key,
            r == self.spec_entries().len() ==> forall|i: int|
                0 <= i < self.spec_entries().len() ==> (#[trigger] self.spec_entries()[i]).0
                    != key,
    {
        let mut k: usize = 0;
        let n = self.entries.len();
        while k < n
            invariant
                n == self.entries@.len(),
                k <= n,
                forall|i: int| 0 <= i < k ==> (#[trigger] self.entries@[i]).0 != key,
            decreases n - k,
        {
            if self.entries[k].0 == key {
                return k;
            }
            k = k + 1;
        }
        k
    }

    /// Whether `key` is present.
    pub fn contains_key(&self, key: u128) -> (r: bool)
        requires
            self.wf(),
        ensures
            r == self@.contains_key(key),
    {
        let i = self.position(key);
        proof {
            lemma_as_map_contains(self.spec_entries(), key);
        }
        i < self.entries.len()
    }

    /// The value under `key`, if any.
    pub fn get(&self, key: u128) -> (r: Option<&V>)
        requires
            self.wf(),
        ensures
            r is Some <==> self@.contains_key(key),
            r matches Some(v) ==> *v == self@[key],
    {
        let i = self.position(key);
        proof {
            lemma_as_map_contains(self.spec_entries(), key);
            if i < self.spec_entries().len() {
                lemma_as_map_index(self.spec_entries(), i as int);
            }
        }
        if i < self.entries.len() {
            Some(&self.entries[i].1)
        } else {
            None
        }
    }

    /// Bind `key` to `value`, replacing any previous binding.
    pub fn insert(&mut self, key: u128, value: V)
        requires
            old(self).wf(),
        ensures
            final(self).wf(),
            final(self)@ =~= old(self)@.insert(key, value),
    {
        let i = self.position(key);
        if i < self.entries.len() {
            proof {
                lemma_as_map_update(self.entries@, i as int, value);
            }
            self.entries[i] = (key, value);
            proof {
                assert(self.entries@ =~= old(self).spec_entries().update(
                    i as int,
                    (key, value),
                ));
            }
        } else {
            proof {
                lemma_as_map_push(self.entries@, key, value);
            }
            self.entries.push((key, value));
        }
    }

    /// Drop the binding of `key`, returning its value.
    pub fn remove(&mut self, key: u128) -> (r: Option<V>)
        requires
            old(self).wf(),
        ensures
            final(self).wf(),
            final(self)@ =~= old(self)@.remove(key),
            r is Some <==> old(self)@.contains_key(key),
            r matches Some(v) ==> v == old(self)@[key],
    {
        let i = self.position(key);
        proof {
            lemma_as_map_contains(self.spec_entries(), key);
        }
        if i < self.entries.len() {
            proof {
                lemma_as_map_index(self.spec_entries(), i as int);
                lemma_as_map_remove(self.spec_entries(), i as int);
            }
            let entry = self.entries.remove(i);
            proof {
                assert(self.entries@ =~= old(self).spec_entries().subrange(0, i as int) + old(
                    self,
                ).spec_entries().subrange(i + 1, old(self).spec_entries().len() as int));
            }
            Some(entry.1)
        } else {
            proof {
                assert(!old(self)@.contains_key(key));
                assert(old(self)@.remove(key) =~= old(self)@);
            }
            None
        }
    }
}


/// No peer-id key occurs twice (keys compare by their characters).
pub open spec fn unique_str_keys<V>(s: Seq<(String, V)>) -> bool {
    forall|i: int, j: int| 0 <= i < j < s.len() ==> (#[trigger] s[i]).0@ != (#[trigger] s[j]).0@
}

/// The map a string-keyed association list stands for.
pub open spec fn as_str_map<V>(s: Seq<(String, V)>) -> Map<Seq<char>, V>
    decreases s.len(),
{
    if s.len() == 0 {
        Map::empty()
    } else {
        as_str_map(s.drop_last()).insert(s.last().0@, s.last().1)
    }
}

/// A key is in the map exactly when some entry carries it.
pub proof fn lemma_as_str_map_contains<V>(s: Seq<(String, V)>, k: Seq<char>)
    ensures
        as_str_map(s).contains_key(k) <==> exists|i: int|
            0 <= i < s.len() && (#[trigger] s[i]).0@ == k,
    decreases s.len(),
{
    if s.len() > 0 {
        lemma_as_str_map_contains(s.drop_last(), k);
        if s.last().0@ == k {
            assert((#[trigger] s[s.len() - 1]).0@ == k);
        } else {
            if as_str_map(s).contains_key(k) {
                let i = choose|i: int|
                    0 <= i < s.drop_last().len() && (#[trigger] s.drop_last()[i]).0@ == k;
                assert(s[i].0@ == k);
            }
            if exists|i: int| 0 <= i < s.len() && (#[trigger] s[i]).0@ == k {
                let i = choose|i: int| 0 <= i < s.len() && (#[trigger] s[i]).0@ == k;
                assert(i < s.len() - 1);
                assert(s.drop_last()[i].0@ == k);
            }
        }
    }
}

/// Each entry's key maps to that entry's value.
pub proof fn lemma_as_str_map_index<V>(s: Seq<(String, V)>, i: int)
    requires
        unique_str_keys(s),
        0 <= i < s.len(),
    ensures
        as_str_map(s).contains_key(s[i].0@),
        as_str_map(s)[s[i].0@] == s[i].1,
    decreases s.len(),
{
    if i == s.len() - 1 {
    } else {
        assert(unique_str_keys(s.drop_last()));
        lemma_as_str_map_index(s.drop_last(), i);
        assert(s[i].0@ != s.last().0@);
    }
}

/// Replacing the value of entry `i` inserts over its key.
pub proof fn lemma_as_str_map_update<V>(s: Seq<(String, V)>, i: int, e: (String, V))
    requires
        unique_str_keys(s),
        0 <= i < s.len(),
        e.0@ == s[i].0@,
    ensures
        as_str_map(s.update(i, e)) =~= as_str_map(s).insert(s[i].0@, e.1),
        unique_str_keys(s.update(i, e)),
    decreases s.len(),
{
    let k = s[i].0@;
    let t = s.update(i, e);
    assert(unique_str_keys(t)) by {
        assert(forall|a: int, b: int|
            0 <= a < b < t.len() ==> (#[trigger] t[a]).0@ == s[a].0@ && (#[trigger] t[b]).0@
                == s[b].0@);
    }
    if i == s.len() - 1 {
        assert(t.drop_last() =~= s.drop_last());
        assert(as_str_map(t) =~= as_str_map(s).insert(k, e.1));
    } else {
        assert(t.drop_last() =~= s.drop_last().update(i, e));
        assert(unique_str_keys(s.drop_last()));
        lemma_as_str_map_update(s.drop_last(), i, e);
        assert(k != s.last().0@);
        assert(as_str_map(t) =~= as_str_map(s).insert(k, e.1));
    }
}

/// Appending a fresh key inserts it.
pub proof fn lemma_as_str_map_push<V>(s: Seq<(String, V)>, e: (String, V))
    requires
        unique_str_keys(s),
        forall|i: int| 0 <= i < s.len() ==> (#[trigger] s[i]).0@ != e.0@,
    ensures
        as_str_map(s.push(e)) =~= as_str_map(s).insert(e.0@, e.1),
        unique_str_keys(s.push(e)),
{
    assert(s.push(e).drop_last() =~= s);
}

/// Deleting entry `i` removes its key.
pub proof fn lemma_as_str_map_remove<V>(s: Seq<(String, V)>, i: int)
    requires
        unique_str_keys(s),
        0 <= i < s.len(),
    ensures
        as_str_map(s.subrange(0, i) + s.subrange(i + 1, s.len() as int)) =~= as_str_map(s).remove(
            s[i].0@,
        ),
        unique_str_keys(s.subrange(0, i) + s.subrange(i + 1, s.len() as int)),
    decreases s.len(),
{
    let k = s[i].0@;
    let t = s.subrange(0, i) + s.subrange(i + 1, s.len() as int);
    assert(unique_str_keys(t)) by {
        assert(forall|a: int|
            0 <= a < t.len() ==> (#[trigger] t[a]) == if a < i {
                s[a]
            } else {
                s[a + 1]
            });
    }
    if i == s.len() - 1 {
        assert(t =~= s.drop_last());
        lemma_as_str_map_contains(s.drop_last(), k);
        assert(!as_str_map(s.drop_last()).contains_key(k)) by {
            if as_str_map(s.drop_last()).contains_key(k) {
                let j = choose|j: int|
                    0 <= j < s.drop_last().len() && (#[trigger] s.drop_last()[j]).0@ == k;
                assert(s[j].0@ == k);
            }
        }
        assert(as_str_map(t) =~= as_str_map(s).remove(k));
    } else {
        assert(t.last() == s.last());
        assert(t.drop_last() =~= s.drop_last().subrange(0, i) + s.drop_last().subrange(
            i + 1,
            s.drop_last().len() as int,
        ));
        assert(unique_str_keys(s.drop_last()));
        lemma_as_str_map_remove(s.drop_last(), i);
        assert(k != s.last().0@);
        assert(as_str_map(t) =~= as_str_map(s).remove(k));
    }
}

/// A registry keyed by peer-id strings.
pub struct StrMap<V> {
    entries: Vec<(String, V)>,
}

impl<V> StrMap<V> {
    /// The underlying entries, for contracts.
    pub closed spec fn spec_entries(&self) -> Seq<(String, V)> {
        self.entries@
    }

    /// The map this registry holds, keyed by the characters of each key.
    pub open spec fn view(&self) -> Map<Seq<char>, V> {
        as_str_map(self.spec_entries())
    }

    /// The registry invariant: no key occurs twice.
    pub open spec fn wf(&self) -> bool {
        unique_str_keys(self.spec_entries())
    }

    /// An empty registry.
    pub fn new() -> (r: Self)
        ensures
            r.wf(),
            r.view() =~= Map::<Seq<char>, V>::empty(),
            r.spec_entries().len() == 0,
    {
        StrMap { entries: Vec::new() }
    }

    /// How many entries the registry holds.
    pub fn len(&self) -> (r: usize)
        ensures
            r == self.spec_entries().len(),
    {
        self.entries.len()
    }

    /// Read-only access to the entries, for iteration.
    pub fn entries(&self) -> (r: &Vec<(String, V)>)
        ensures
            r@ == self.spec_entries(),
    {
        &self.entries
    }

    /// Position of `key`, or the length when absent.
    fn position(&self, key: &String) -> (r: usize)
        ensures
            r <= self.spec_entries().len(),
            r < self.spec_entries().len() ==> self.spec_entries()[r as int].0@ == key@,
            r == self.spec_entries().len() ==> forall|i: int|
                0 <= i < self.spec_entries().len() ==> (#[trigger] self.spec_entries()[i]).0@
                    != key@,
    {
        let mut k: usize = 0;
        let n = self.entries.len();
        while k < n
            invariant
                n == self.entries@.len(),
                k <= n,
                forall|i: int| 0 <= i < k ==> (#[trigger] self.entries@[i]).0@ != key@,
            decreases n - k,
        {
            if self.entries[k].0 == *key {
                return k;
            }
            k = k + 1;
        }
        k
    }

    /// Whether `key` is present.
    pub fn contains_key(&self, key: &String) -> (r: bool)
        requires
            self.wf(),
        ensures
            r == self@.contains_key(key@),
    {
        let i = self.position(key);
        proof {
            lemma_as_str_map_contains(self.spec_entries(), key@);
        }
        i < self.entries.len()
    }

    /// The value under `key`, if any.
    pub fn get(&self, key: &String) -> (r: Option<&V>)
        requires
            self.wf(),
        ensures
            r is Some <==> self@.contains_key(key@),
            r matches Some(v) ==> *v == self@[key@],
    {
        let i = self.position(key);
        proof {
            lemma_as_str_map_contains(self.spec_entries(), key@);
            if i < self.spec_entries().len() {
                lemma_as_str_map_index(self.spec_entries(), i as int);
            }
        }
        if i < self.entries.len() {
            Some(&self.entries[i].1)
        } else {
            None
        }
    }

    /// Bind `key` to `value`, replacing any previous binding.
    pub fn insert(&mut self, key: String, value: V)
        requires
            old(self).wf(),
        ensures
            final(self).wf(),
            final(self)@ =~= old(self)@.insert(key@, value),
    {
        let i = self.position(&key);
        if i < self.entries.len() {
            proof {
                lemma_as_str_map_update(self.entries@, i as int, (key, value));
            }
            self.entries[i] = (key, value);
            proof {
                assert(self.entries@ =~= old(self).spec_entries().update(
                    i as int,
                    self.entries@[i as int],
                ));
            }
        } else {
            proof {
                lemma_as_str_map_push(self.entries@, (key, value));
            }
            self.entries.push((key, value));
        }
    }

    /// Drop the binding of `key`, returning its value.
    pub fn remove(&mut self, key: &String) -> (r: Option<V>)
        requires
            old(self).wf(),
        ensures
            final(self).wf(),
            final(self)@ =~= old(self)@.remove(key@),
            r is Some <==> old(self)@.contains_key(key@),
            r matches Some(v) ==> v == old(self)@[key@],
    {
        let i = self.position(key);
        proof {
            lemma_as_str_map_contains(self.spec_entries(), key@);
        }
        if i < self.entries.len() {
            proof {
                lemma_as_str_map_index(self.spec_entries(), i as int);
                lemma_as_str_map_remove(self.spec_entries(), i as int);
            }
            let entry = self.entries.remove(i);
            proof {
                assert(self.entries@ =~= old(self).spec_entries().subrange(0, i as int) + old(
                    self,
                ).spec_entries().subrange(i + 1, old(self).spec_entries().len() as int));
            }
            Some(entry.1)
        } else {
            proof {
                assert(!old(self)@.contains_key(key@));
                assert(old(self)@.remove(key@) =~= old(self)@);
            }
            None
        }
    }
}

} // verus!
