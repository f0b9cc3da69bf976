//! A small map from text keys to values, kept as a list in which no key
//! occurs twice. Every operation says exactly what it does to that list, so
//! what a lookup finds after any sequence of insertions is proved. The
//! entries stand in the order in which their keys were first set.
use vstd::prelude::*;
use crate::text::str_eq;

verus! {

/// The position of `key` in a list of entries, or `-1` where no entry has it.
pub open spec fn index_of<T>(entries: Seq<(Seq<char>, T)>, key: Seq<char>) -> int
    decreases entries.len(),
{
    if entries.len() == 0 {
        -1
    } else if entries.last().0 == key {
        entries.len() - 1
    } else {
        index_of(entries.drop_last(), key)
    }
}

/// The value that `key` maps to.
pub open spec fn lookup<T>(entries: Seq<(Seq<char>, T)>, key: Seq<char>) -> Option<T> {
    let i = index_of(entries, key);
    if i >= 0 {
        Some(entries[i].1)
    } else {
        None
    }
}

/// The entries after `key` is set to `value`: the entry of the key is
/// replaced where it is, and a new key is added at the end.
pub open spec fn with_entry<T>(entries: Seq<(Seq<char>, T)>, key: Seq<char>, value: T) -> Seq<
    (Seq<char>, T),
> {
    let i = index_of(entries, key);
    if i >= 0 {
        entries.update(i, (key, value))
    } else {
        entries.push((key, value))
    }
}

/// Whether no key occurs twice.
pub open spec fn distinct_keys<T>(entries: Seq<(Seq<char>, T)>) -> bool {
    forall|i: int, j: int| 0 <= i < j < entries.len() ==> entries[i].0 != entries[j].0
}

/// `index_of` finds the position of a key, and finds none only where no
/// entry has the key.
pub proof fn lemma_index_of<T>(entries: Seq<(Seq<char>, T)>, key: Seq<char>)
    ensures
        -1 <= index_of(entries, key) < entries.len(),
        index_of(entries, key) >= 0 ==> entries[index_of(entries, key)].0 == key,
        index_of(entries, key) < 0 ==> forall|i: int|
            0 <= i < entries.len() ==> entries[i].0 != key,
        forall|i: int| index_of(entries, key) < i < entries.len() ==> entries[i].0 != key,
    decreases entries.len(),
{
    if entries.len() > 0 && entries.last().0 != key {
        let rest = entries.drop_last();
        lemma_index_of(rest, key);
        assert forall|i: int| index_of(entries, key) < i < entries.len() implies entries[i].0
            != key by {
            if i < rest.len() {
                assert(rest[i].0 != key);
            }
        }
        if index_of(entries, key) < 0 {
            assert forall|i: int| 0 <= i < entries.len() implies entries[i].0 != key by {
                if i < rest.len() {
                    assert(rest[i].0 != key);
                }
            }
        }
    }
}

/// Setting a key keeps the keys distinct, makes the key map to the new value
/// and leaves every other key as it was.
pub proof fn lemma_with_entry<T>(entries: Seq<(Seq<char>, T)>, key: Seq<char>, value: T)
    requires
        distinct_keys(entries),
    ensures
        distinct_keys(with_entry(entries, key, value)),
        lookup(with_entry(entries, key, value), key) == Some(value),
        forall|other: Seq<char>|
            other != key ==> lookup(with_entry(entries, key, value), other) == lookup(
                entries,
                other,
            ),
{
    let after = with_entry(entries, key, value);
    lemma_index_of(entries, key);
    lemma_index_of(after, key);
    let at = index_of(entries, key);
    let place = if at >= 0 {
        at
    } else {
        entries.len() as int
    };
    assert(after[place] == (key, value));
    assert(index_of(after, key) == place) by {
        let found = index_of(after, key);
        if found < 0 {
            assert(after[place].0 != key);
        } else if found != place {
            assert(after[found].0 == key);
            assert(entries[found].0 == key);
        }
    }
    assert(distinct_keys(after)) by {
        assert forall|i: int, j: int| 0 <= i < j < after.len() implies after[i].0 != after[j].0 by {
            if i != place && j != place {
                assert(entries[i].0 != entries[j].0);
            } else if i == place {
                if at >= 0 {
                    assert(entries[i].0 != entries[j].0);
                }
            } else {
                if at >= 0 {
                    assert(entries[i].0 != entries[j].0);
                } else {
                    assert(entries[i].0 != key);
                }
            }
        }
    }
    assert forall|other: Seq<char>| other != key implies lookup(after, other) == lookup(
        entries,
        other,
    ) by {
        lemma_index_of(entries, other);
        lemma_index_of(after, other);
        let a = index_of(entries, other);
        let b = index_of(after, other);
        if a >= 0 {
            assert(after[a].0 == other);
        }
        if b >= 0 {
            assert(b < entries.len());
            assert(entries[b].0 == other);
        }
    }
}

/// The entries with each value replaced by its view.
pub open spec fn entry_views<T: View>(entries: Seq<(Seq<char>, T)>) -> Seq<(Seq<char>, T::V)> {
    Seq::new(entries.len(), |i: int| (entries[i].0, entries[i].1@))
}

/// Where a key stands does not depend on the values.
pub proof fn lemma_index_of_views<T: View>(entries: Seq<(Seq<char>, T)>, key: Seq<char>)
    ensures
        index_of(entry_views(entries), key) == index_of(entries, key),
    decreases entries.len(),
{
    if entries.len() > 0 {
        assert(entry_views(entries).drop_last() =~= entry_views(entries.drop_last()));
        lemma_index_of_views(entries.drop_last(), key);
    }
}

/// Setting a key and then taking views is setting the key among the views.
pub proof fn lemma_with_entry_views<T: View>(entries: Seq<(Seq<char>, T)>, key: Seq<char>, value: T)
    ensures
        entry_views(with_entry(entries, key, value)) == with_entry(
            entry_views(entries),
            key,
            value@,
        ),
{
    lemma_index_of_views(entries, key);
    lemma_index_of(entries, key);
    assert(entry_views(with_entry(entries, key, value)) =~= with_entry(
        entry_views(entries),
        key,
        value@,
    ));
}

/// A map from text keys to values.
#[derive(Debug)]
pub struct StringMap<T> {
    entries: Vec<(String, T)>,
}

impl<T> StringMap<T> {
    #[verifier::type_invariant]
    spec fn well_formed(&self) -> bool {
        distinct_keys(self.entries())
    }

    /// The entries of the map, in the order in which their keys were first
    /// set.
    pub closed spec fn entries(&self) -> Seq<(Seq<char>, T)> {
        Seq::new(self.entries@.len(), |i: int| (self.entries@[i].0@, self.entries@[i].1))
    }

    /// The value that `key` maps to.
    pub open spec fn value_of(&self, key: Seq<char>) -> Option<T> {
        lookup(self.entries(), key)
    }

    /// A map without entries.
    pub fn new() -> (m: StringMap<T>)
        ensures
            m.entries() == Seq::<(Seq<char>, T)>::empty(),
    {
        let m = StringMap { entries: Vec::new() };
        assert(m.entries() =~= Seq::<(Seq<char>, T)>::empty());
        m
    }

    /// The number of entries.
    pub fn len(&self) -> (n: usize)
        ensures
            n == self.entries().len(),
            distinct_keys(self.entries()),
    {
        proof {
            use_type_invariant(self);
        }
        self.entries.len()
    }

    fn position(&self, key: &str) -> (r: Option<usize>)
        ensures
            r is Some <==> index_of(self.entries(), key@) >= 0,
            r matches Some(i) ==> i == index_of(self.entries(), key@),
    {
        let mut i: usize = self.entries.len();
        assert(self.entries().take(i as int) =~= self.entries());
        while i > 0
            invariant
                i <= self.entries.len(),
                index_of(self.entries(), key@) == index_of(self.entries().take(i as int), key@),
            decreases i,
        {
            i = i - 1;
            proof {
                assert(self.entries().take(i + 1).drop_last() =~= self.entries().take(i as int));
            }
            if str_eq(self.entries[i].0.as_str(), key) {
                return Some(i);
            }
        }
        None
    }

    /// The value that `key` maps to.
    pub fn get(&self, key: &str) -> (r: Option<&T>)
        ensures
            r is Some <==> self.value_of(key@) is Some,
            r matches Some(v) ==> self.value_of(key@) == Some(*v),
    {
        proof {
            lemma_index_of(self.entries(), key@);
        }
        match self.position(key) {
            Some(i) => Some(&self.entries[i].1),
            None => None,
        }
    }

    /// Whether `key` maps to a value.
    pub fn contains_key(&self, key: &str) -> (r: bool)
        ensures
            r == (self.value_of(key@) is Some),
    {
        self.position(key).is_some()
    }

    /// Sets `key` to `value`.
    pub fn insert(&mut self, key: String, value: T)
        ensures
            final(self).entries() == with_entry(old(self).entries(), key@, value),
    {
        proof {
            use_type_invariant(&*self);
            lemma_index_of(self.entries(), key@);
            lemma_with_entry(self.entries(), key@, value);
        }
        let ghost before = self.entries();
        let found = self.position(key.as_str());
        let mut entries: Vec<(String, T)> = Vec::new();
        core::mem::swap(&mut entries, &mut self.entries);
        match found {
            Some(i) => {
                entries.set(i, (key, value));
            },
            None => {
                entries.push((key, value));
            },
        }
        assert(Seq::new(entries@.len(), |i: int| (entries@[i].0@, entries@[i].1)) =~= with_entry(
            before,
            key@,
            value,
        ));
        core::mem::swap(&mut entries, &mut self.entries);
    }

    /// The key and the value of the entry at position `i`.
    pub fn entry(&self, i: usize) -> (r: (&str, &T))
        requires
            i < self.entries().len(),
        ensures
            r.0@ == self.entries()[i as int].0,
            *r.1 == self.entries()[i as int].1,
    {
        (self.entries[i].0.as_str(), &self.entries[i].1)
    }

    /// The values of the map, in the order of its entries.
    pub fn values(&self) -> (r: Vec<&T>)
        ensures
            r.len() == self.entries().len(),
            forall|i: int| 0 <= i < r.len() ==> *r@[i] == self.entries()[i].1,
            distinct_keys(self.entries()),
    {
        proof {
            use_type_invariant(self);
        }
        let mut r: Vec<&T> = Vec::new();
        let mut i: usize = 0;
        while i < self.entries.len()
            invariant
                i <= self.entries.len(),
                r.len() == i,
                forall|k: int| 0 <= k < i ==> *r@[k] == self.entries()[k].1,
            decreases self.entries.len() - i,
        {
            r.push(&self.entries[i].1);
            i = i + 1;
        }
        r
    }
}

impl StringMap<String> {
    /// The entries of the map as pairs of texts, in order.
    pub open spec fn text_entries(&self) -> Seq<(Seq<char>, Seq<char>)> {
        entry_views(self.entries())
    }

    /// The entries of the map as pairs of strings, in order.
    pub fn pairs(&self) -> (r: Vec<(String, String)>)
        ensures
            r.len() == self.entries().len(),
            forall|i: int|
                0 <= i < r.len() ==> r@[i].0@ == self.entries()[i].0 && r@[i].1@
                    == self.entries()[i].1@,
    {
        let mut r: Vec<(String, String)> = Vec::new();
        let mut i: usize = 0;
        while i < self.entries.len()
            invariant
                i <= self.entries.len(),
                r.len() == i,
                forall|k: int|
                    0 <= k < i ==> r@[k].0@ == self.entries()[k].0 && r@[k].1@
                        == self.entries()[k].1@,
            decreases self.entries.len() - i,
        {
            r.push((self.entries[i].0.clone(), self.entries[i].1.clone()));
            i = i + 1;
        }
        r
    }
}

} // verus!
