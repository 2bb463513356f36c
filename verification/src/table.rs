//! A keyed table that keeps its entries in the order they were first inserted.

use crate::text::same_text;
use vstd::prelude::*;

verus! {

/// Whether `i` is the first position of `entries` whose key is `key`.
pub open spec fn first_at<T>(entries: Seq<(Seq<char>, T)>, key: Seq<char>, i: int) -> bool {
    &&& 0 <= i < entries.len()
    &&& entries[i].0 == key
    &&& forall|j: int| 0 <= j < i ==> (#[trigger] entries[j]).0 != key
}

/// The first position of `entries` whose key is `key`, if there is one.
pub open spec fn index_of<T>(entries: Seq<(Seq<char>, T)>, key: Seq<char>) -> Option<int> {
    if exists|i: int| first_at(entries, key, i) {
        Some(choose|i: int| first_at(entries, key, i))
    } else {
        None
    }
}

/// The value of the first entry whose key is `key`, if there is one.
pub open spec fn lookup<T>(entries: Seq<(Seq<char>, T)>, key: Seq<char>) -> Option<T> {
    match index_of(entries, key) {
        Some(i) => Some(entries[i].1),
        None => None,
    }
}

/// `entries` with `value` stored under `key`: in place of the value that the key had,
/// or as a new last entry.
pub open spec fn put<T>(entries: Seq<(Seq<char>, T)>, key: Seq<char>, value: T) -> Seq<(Seq<char>, T)> {
    match index_of(entries, key) {
        Some(i) => entries.update(i, (key, value)),
        None => entries.push((key, value)),
    }
}

/// The table that a list of entries makes when each is stored in turn: a key that
/// occurs more than once stays where it first stood and keeps its last value.
pub open spec fn gathered<T>(entries: Seq<(Seq<char>, T)>) -> Seq<(Seq<char>, T)>
    decreases entries.len(),
{
    if entries.len() == 0 {
        entries
    } else {
        put(gathered(entries.drop_last()), entries.last().0, entries.last().1)
    }
}

/// No key occurs twice.
pub open spec fn distinct_keys<T>(entries: Seq<(Seq<char>, T)>) -> bool {
    forall|i: int, j: int|
        0 <= i < j < entries.len() ==> (#[trigger] entries[i]).0 != (#[trigger] entries[j]).0
}

/// A table from string keys to values. No key occurs twice, and the entries stay in
/// the order in which their keys were first inserted.
#[derive(Debug, PartialEq, Eq)]
pub struct Table<V> {
    pub entries: Vec<(String, V)>,
}

impl<V: View> View for Table<V> {
    type V = Seq<(Seq<char>, V::V)>;

    open spec fn view(&self) -> Self::V {
        Seq::new(self.entries@.len(), |i: int| (self.entries@[i].0@, self.entries@[i].1@))
    }
}

impl<V: View> Table<V> {
    /// The invariant of the type: no key occurs twice.
    pub open spec fn wf(&self) -> bool {
        distinct_keys(self@)
    }

    /// An empty table.
    pub fn new() -> (table: Self)
        ensures
            table@ == Seq::<(Seq<char>, V::V)>::empty(),
            table.wf(),
    {
        let table = Table { entries: Vec::new() };
        assert(table@ =~= Seq::<(Seq<char>, V::V)>::empty());
        table
    }

    /// The number of entries.
    pub fn len(&self) -> (n: usize)
        ensures
            n == self@.len(),
    {
        self.entries.len()
    }

    /// The position of the entry for `key`.
    pub fn find(&self, key: &str) -> (found: Option<usize>)
        ensures
            found matches Some(i) ==> index_of(self@, key@) == Some(i as int),
            found is None ==> index_of(self@, key@) is None,
    {
        let mut i: usize = 0;
        while i < self.entries.len()
            invariant
                i <= self.entries.len(),
                forall|j: int| 0 <= j < i ==> (#[trigger] self@[j]).0 != key@,
            decreases self.entries.len() - i,
        {
            if same_text(self.entries[i].0.as_str(), key) {
                proof {
                    assert(self@[i as int].0 == key@);
                    lemma_index_of_first(self@, key@, i as int);
                }
                return Some(i);
            }
            i += 1;
        }
        proof {
            lemma_index_of_absent(self@, key@);
        }
        None
    }

    /// The key and the value at a position.
    pub fn entry(&self, i: usize) -> (pair: (&str, &V))
        requires
            i < self@.len(),
        ensures
            pair.0@ == self@[i as int].0,
            pair.1@ == self@[i as int].1,
    {
        (self.entries[i].0.as_str(), &self.entries[i].1)
    }

    /// The value stored under `key`.
    pub fn get(&self, key: &str) -> (value: Option<&V>)
        ensures
            value matches Some(v) ==> lookup(self@, key@) == Some(v@),
            value is None ==> lookup(self@, key@) is None,
    {
        match self.find(key) {
            Some(i) => Some(&self.entries[i].1),
            None => None,
        }
    }

    /// Stores `value` under `key`, in place of the value that the key had, or as a new
    /// last entry.
    pub fn insert(&mut self, key: String, value: V)
        requires
            old(self).wf(),
        ensures
            final(self)@ == put(old(self)@, key@, value@),
            final(self).wf(),
    {
        match self.find(key.as_str()) {
            Some(i) => {
                proof {
                    lemma_index_of_found(self@, key@);
                }
                self.entries[i] = (key, value);
                assert(self@ =~= put(old(self)@, key@, value@));
            },
            None => {
                proof {
                    lemma_index_of_found(self@, key@);
                }
                self.entries.push((key, value));
                assert(self@ =~= put(old(self)@, key@, value@));
            },
        }
    }
}

/// A position that holds `key` with no earlier one doing so is what `index_of` finds.
pub proof fn lemma_index_of_first<T>(entries: Seq<(Seq<char>, T)>, key: Seq<char>, i: int)
    requires
        first_at(entries, key, i),
    ensures
        index_of(entries, key) == Some(i),
{
    let c = choose|c: int| first_at(entries, key, c);
    if c < i {
        assert(entries[c].0 != key);
    } else if i < c {
        assert(entries[i].0 != key);
    }
}

/// Where no entry holds `key`, `index_of` finds nothing.
pub proof fn lemma_index_of_absent<T>(entries: Seq<(Seq<char>, T)>, key: Seq<char>)
    requires
        forall|j: int| 0 <= j < entries.len() ==> (#[trigger] entries[j]).0 != key,
    ensures
        index_of(entries, key) is None,
{
}

/// What `index_of` finds is a first position.
pub proof fn lemma_index_of_found<T>(entries: Seq<(Seq<char>, T)>, key: Seq<char>)
    ensures
        index_of(entries, key) matches Some(i) ==> first_at(entries, key, i),
        index_of(entries, key) is None ==> forall|j: int|
            0 <= j < entries.len() ==> (#[trigger] entries[j]).0 != key,
{
    if index_of(entries, key) is None {
        assert forall|j: int| 0 <= j < entries.len() implies (#[trigger] entries[j]).0 != key by {
            if entries[j].0 == key {
                lemma_some_first(entries, key, j);
            }
        }
    }
}

/// Storing a value keeps the keys distinct.
pub proof fn lemma_put_distinct<T>(entries: Seq<(Seq<char>, T)>, key: Seq<char>, value: T)
    requires
        distinct_keys(entries),
    ensures
        distinct_keys(put(entries, key, value)),
{
    lemma_index_of_found(entries, key);
    let after = put(entries, key, value);
    match index_of(entries, key) {
        Some(at) => {
            assert forall|i: int, j: int| 0 <= i < j < after.len() implies (#[trigger] after[i]).0 != (
            #[trigger] after[j]).0 by {
                assert(after[i].0 == entries[i].0);
                assert(after[j].0 == entries[j].0);
            }
        },
        None => {
            assert forall|i: int, j: int| 0 <= i < j < after.len() implies (#[trigger] after[i]).0 != (
            #[trigger] after[j]).0 by {
                assert(after[i] == entries[i]);
                if j < entries.len() {
                    assert(after[j] == entries[j]);
                }
            }
        },
    }
}

/// After a value is stored under a key, looking the key up finds that value, and
/// looking another key up finds what it found before.
pub proof fn lemma_put_lookup<T>(entries: Seq<(Seq<char>, T)>, key: Seq<char>, value: T, other: Seq<char>)
    ensures
        lookup(put(entries, key, value), key) == Some(value),
        other != key ==> lookup(put(entries, key, value), other) == lookup(entries, other),
{
    lemma_index_of_found(entries, key);
    lemma_index_of_found(entries, other);
    let after = put(entries, key, value);
    match index_of(entries, key) {
        Some(at) => {
            assert(first_at(after, key, at)) by {
                assert forall|j: int| 0 <= j < at implies (#[trigger] after[j]).0 != key by {
                    assert(entries[j].0 != key);
                }
            }
            lemma_index_of_first(after, key, at);
            if other != key {
                match index_of(entries, other) {
                    Some(o) => {
                        assert(first_at(after, other, o)) by {
                            assert forall|j: int| 0 <= j < o implies (#[trigger] after[j]).0 != other by {
                                assert(entries[j].0 != other);
                            }
                        }
                        lemma_index_of_first(after, other, o);
                    },
                    None => {
                        assert forall|j: int| 0 <= j < after.len() implies (#[trigger] after[j]).0 != other by {
                            assert(entries[j].0 != other);
                        }
                        lemma_index_of_absent(after, other);
                    },
                }
            }
        },
        None => {
            let end = entries.len() as int;
            assert(first_at(after, key, end)) by {
                assert forall|j: int| 0 <= j < end implies (#[trigger] after[j]).0 != key by {
                    assert(entries[j].0 != key);
                }
            }
            lemma_index_of_first(after, key, end);
            if other != key {
                match index_of(entries, other) {
                    Some(o) => {
                        assert(first_at(after, other, o)) by {
                            assert forall|j: int| 0 <= j < o implies (#[trigger] after[j]).0 != other by {
                                assert(entries[j].0 != other);
                            }
                        }
                        lemma_index_of_first(after, other, o);
                    },
                    None => {
                        assert forall|j: int| 0 <= j < after.len() implies (#[trigger] after[j]).0 != other by {
                            if j < end {
                                assert(entries[j].0 != other);
                            }
                        }
                        lemma_index_of_absent(after, other);
                    },
                }
            }
        },
    }
}

/// Entries whose keys are distinct already make the table that they are.
pub proof fn lemma_gathered_distinct<T>(entries: Seq<(Seq<char>, T)>)
    requires
        distinct_keys(entries),
    ensures
        gathered(entries) == entries,
    decreases entries.len(),
{
    if entries.len() > 0 {
        let front = entries.drop_last();
        assert(distinct_keys(front)) by {
            assert forall|i: int, j: int| 0 <= i < j < front.len() implies (#[trigger] front[i]).0 != (
            #[trigger] front[j]).0 by {
                assert(front[i] == entries[i]);
                assert(front[j] == entries[j]);
            }
        }
        lemma_gathered_distinct(front);
        assert forall|j: int| 0 <= j < front.len() implies (#[trigger] front[j]).0 != entries.last().0 by {
            assert(front[j] == entries[j]);
            assert(entries[j].0 != entries[entries.len() - 1].0);
        }
        lemma_index_of_absent(front, entries.last().0);
        assert(front.push(entries.last()) =~= entries);
    }
}

/// What entries make is a table: no key occurs twice in it.
pub proof fn lemma_gathered_is_distinct<T>(entries: Seq<(Seq<char>, T)>)
    ensures
        distinct_keys(gathered(entries)),
    decreases entries.len(),
{
    if entries.len() > 0 {
        lemma_gathered_is_distinct(entries.drop_last());
        lemma_put_distinct(gathered(entries.drop_last()), entries.last().0, entries.last().1);
    }
}

/// Where a key occurs more than once among entries, its last value is the one that the
/// table holds; a key that does not occur is not in the table.
pub proof fn lemma_gathered_last_wins<T>(entries: Seq<(Seq<char>, T)>, key: Seq<char>)
    ensures
        (forall|j: int| 0 <= j < entries.len() ==> (#[trigger] entries[j]).0 != key) ==> lookup(
            gathered(entries),
            key,
        ) is None,
        forall|i: int|
            0 <= i < entries.len() && (#[trigger] entries[i]).0 == key && (forall|j: int|
                i < j < entries.len() ==> (#[trigger] entries[j]).0 != key) ==> lookup(gathered(entries), key)
                == Some(entries[i].1),
    decreases entries.len(),
{
    if entries.len() == 0 {
        lemma_index_of_absent(gathered(entries), key);
    } else {
        let front = entries.drop_last();
        let last = entries.last();
        lemma_gathered_last_wins(front, key);
        lemma_put_lookup(gathered(front), last.0, last.1, key);
        if forall|j: int| 0 <= j < entries.len() ==> (#[trigger] entries[j]).0 != key {
            assert(entries[entries.len() - 1].0 != key);
            assert forall|j: int| 0 <= j < front.len() implies (#[trigger] front[j]).0 != key by {
                assert(front[j] == entries[j]);
            }
        }
        assert forall|i: int|
            0 <= i < entries.len() && (#[trigger] entries[i]).0 == key && (forall|j: int|
                i < j < entries.len() ==> (#[trigger] entries[j]).0 != key) implies lookup(
            gathered(entries),
            key,
        ) == Some(entries[i].1) by {
            if i < entries.len() - 1 {
                assert(entries[entries.len() - 1].0 != key);
                assert(front[i] == entries[i]);
                assert forall|j: int| i < j < front.len() implies (#[trigger] front[j]).0 != key by {
                    assert(front[j] == entries[j]);
                }
            }
        }
    }
}

/// A sequence that holds `key` somewhere up to `upto` has a first position for it.
proof fn lemma_some_first<T>(entries: Seq<(Seq<char>, T)>, key: Seq<char>, upto: int)
    requires
        0 <= upto < entries.len(),
        entries[upto].0 == key,
    ensures
        exists|i: int| first_at(entries, key, i),
    decreases upto,
{
    if exists|j: int| 0 <= j < upto && (#[trigger] entries[j]).0 == key {
        let j = choose|j: int| 0 <= j < upto && (#[trigger] entries[j]).0 == key;
        lemma_some_first(entries, key, j);
    } else {
        assert(first_at(entries, key, upto));
    }
}

} // verus!
