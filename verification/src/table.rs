//! A small table of values by number, in the order of first mention.

use vstd::prelude::*;

verus! {

/// The value that is stored under a key.
pub open spec fn stored<V>(s: Seq<(u64, V)>, key: u64) -> Option<V>
    decreases s.len(),
{
    if s.len() == 0 {
        None
    } else if s[0].0 == key {
        Some(s[0].1)
    } else {
        stored(s.skip(1), key)
    }
}

/// The entries after a value was stored under a key.
pub open spec fn with_stored<V>(s: Seq<(u64, V)>, key: u64, value: V) -> Seq<(u64, V)>
    decreases s.len(),
{
    if s.len() == 0 {
        seq![(key, value)]
    } else if s[0].0 == key {
        s.update(0, (key, value))
    } else {
        seq![s[0]] + with_stored(s.skip(1), key, value)
    }
}

/// A key is looked up, and stored, where it is mentioned first.
pub proof fn first_mention_counts<V>(s: Seq<(u64, V)>, key: u64, i: int, value: V)
    requires
        0 <= i < s.len(),
        s[i].0 == key,
        forall|j: int| 0 <= j < i ==> (#[trigger] s[j]).0 != key,
    ensures
        stored(s, key) == Some(s[i].1),
        with_stored(s, key, value) == s.update(i, (key, value)),
    decreases s.len(),
{
    if i > 0 {
        assert(s[0].0 != key);
        assert forall|j: int| 0 <= j < i - 1 implies (#[trigger] s.skip(1)[j]).0 != key by {
            assert(s.skip(1)[j] == s[j + 1]);
        }
        first_mention_counts(s.skip(1), key, i - 1, value);
        assert(seq![s[0]] + s.skip(1).update(i - 1, (key, value)) =~= s.update(i, (key, value)));
    }
}

/// A value under a new key comes last.
pub proof fn new_keys_come_last<V>(s: Seq<(u64, V)>, key: u64, value: V)
    requires
        forall|j: int| 0 <= j < s.len() ==> (#[trigger] s[j]).0 != key,
    ensures
        stored(s, key) is None,
        with_stored(s, key, value) == s.push((key, value)),
    decreases s.len(),
{
    if s.len() > 0 {
        assert(s[0].0 != key);
        assert forall|j: int| 0 <= j < s.skip(1).len() implies (#[trigger] s.skip(1)[j]).0 != key by {
            assert(s.skip(1)[j] == s[j + 1]);
        }
        new_keys_come_last(s.skip(1), key, value);
        assert(seq![s[0]] + s.skip(1).push((key, value)) =~= s.push((key, value)));
    } else {
        assert(seq![(key, value)] =~= s.push((key, value)));
    }
}

/// What is stored under a key is found again, and leaves what is stored under all other
/// keys as it is.
pub proof fn stored_values_are_found<V>(s: Seq<(u64, V)>, key: u64, value: V, other: u64)
    ensures
        stored(with_stored(s, key, value), key) == Some(value),
        other != key ==> stored(with_stored(s, key, value), other) == stored(s, other),
    decreases s.len(),
{
    let r = with_stored(s, key, value);
    if s.len() == 0 {
        assert(r.skip(1) =~= s);
        assert(stored(r.skip(1), other) is None);
    } else if s[0].0 == key {
        assert(r.skip(1) =~= s.skip(1));
        assert(stored(r, other) == if other == key { Some(value) } else { stored(r.skip(1), other) });
    } else {
        stored_values_are_found(s.skip(1), key, value, other);
        assert(r.skip(1) =~= with_stored(s.skip(1), key, value));
        assert(r[0] == s[0]);
        assert(stored(r, key) == stored(r.skip(1), key));
        if s[0].0 != other {
            assert(stored(r, other) == stored(r.skip(1), other));
            assert(stored(s, other) == stored(s.skip(1), other));
        }
    }
}

/// Every value of the entries has a property.
pub open spec fn all_values<V>(s: Seq<(u64, V)>, f: spec_fn(V) -> bool) -> bool {
    forall|i: int| 0 <= i < s.len() ==> f((#[trigger] s[i]).1)
}

/// If all values have a property, so has what is found, and all values have it still after
/// another one with the property was stored.
pub proof fn properties_are_kept<V>(s: Seq<(u64, V)>, key: u64, value: V, f: spec_fn(V) -> bool)
    requires
        all_values(s, f),
        f(value),
    ensures
        stored(s, key) matches Some(v) ==> f(v),
        all_values(with_stored(s, key, value), f),
    decreases s.len(),
{
    if s.len() > 0 {
        assert forall|i: int| 0 <= i < s.skip(1).len() implies f((#[trigger] s.skip(1)[i]).1) by {
            assert(s.skip(1)[i] == s[i + 1]);
        }
        properties_are_kept(s.skip(1), key, value, f);
        let r = with_stored(s, key, value);
        assert forall|i: int| 0 <= i < r.len() implies f((#[trigger] r[i]).1) by {
            if s[0].0 == key {
                assert(i == 0 || r[i] == s[i]);
            } else if i > 0 {
                assert(r[i] == with_stored(s.skip(1), key, value)[i - 1]);
            } else {
                assert(r[0] == s[0]);
            }
        }
    }
}

/// Values by number.
pub struct Table<V> {
    entries: Vec<(u64, V)>,
}

impl<V: Copy> Table<V> {
    /// The entries, in the order of first mention.
    pub closed spec fn entries(self) -> Seq<(u64, V)> {
        self.entries@
    }

    /// A table without entries.
    pub fn new() -> (r: Self)
        ensures
            r.entries().len() == 0,
    {
        Table { entries: Vec::new() }
    }

    /// The number of entries.
    pub fn len(&self) -> (r: usize)
        ensures
            r == self.entries().len(),
    {
        self.entries.len()
    }

    /// The value of entry number `i`.
    pub fn value_at(&self, i: usize) -> (r: &V)
        requires
            i < self.entries().len(),
        ensures
            *r == self.entries()[i as int].1,
    {
        &self.entries[i].1
    }

    /// The value that is stored under a key.
    pub fn get(&self, key: u64) -> (r: Option<&V>)
        ensures
            match r {
                Some(v) => stored(self.entries(), key) == Some(*v),
                None => stored(self.entries(), key) is None,
            },
    {
        let mut i: usize = 0;
        while i < self.entries.len()
            invariant
                i <= self.entries@.len(),
                forall|j: int| 0 <= j < i ==> (#[trigger] self.entries@[j]).0 != key,
            decreases self.entries@.len() - i,
        {
            if self.entries[i].0 == key {
                proof {
                    first_mention_counts(self.entries@, key, i as int, self.entries@[i as int].1);
                }
                return Some(&self.entries[i].1);
            }
            i = i + 1;
        }
        proof {
            if self.entries@.len() > 0 {
                new_keys_come_last(self.entries@, key, self.entries@[0].1);
            }
        }
        None
    }

    /// Stores a value under a key.
    pub fn set(&mut self, key: u64, value: V)
        ensures
            final(self).entries() == with_stored(old(self).entries(), key, value),
    {
        let mut i: usize = 0;
        while i < self.entries.len()
            invariant
                i <= self.entries@.len(),
                self.entries == old(self).entries,
                forall|j: int| 0 <= j < i ==> (#[trigger] self.entries@[j]).0 != key,
            decreases self.entries@.len() - i,
        {
            if self.entries[i].0 == key {
                proof {
                    first_mention_counts(self.entries@, key, i as int, value);
                }
                self.entries[i] = (key, value);
                return;
            }
            i = i + 1;
        }
        proof {
            new_keys_come_last(self.entries@, key, value);
        }
        self.entries.push((key, value));
    }
}

} // verus!
