//! A map from names to values, kept as a vector of entries in the order of
//! their names.
//!
//! The model of a table is a `Map` from the characters of a name to the view
//! of its value. The entries are held in the strictly increasing
//! lexicographic order of their names, so that no name occurs twice and a
//! walk through the table goes by name.

use crate::text::{
    chars_of, comes_before, lemma_precedes_irreflexive, lemma_precedes_total,
    lemma_precedes_transitive, precedes, same_chars, same_text,
};
use vstd::prelude::*;

verus! {

/// The value of the first entry of `entries` with the name `name`.
pub open spec fn lookup<X>(entries: Seq<(Seq<char>, X)>, name: Seq<char>) -> Option<X>
    decreases entries.len(),
{
    if entries.len() == 0 {
        None
    } else if entries[0].0 == name {
        Some(entries[0].1)
    } else {
        lookup(entries.skip(1), name)
    }
}

/// The map that `entries` lists.
pub open spec fn map_of<X>(entries: Seq<(Seq<char>, X)>) -> Map<Seq<char>, X> {
    Map::new(
        |name: Seq<char>| lookup(entries, name) is Some,
        |name: Seq<char>| lookup(entries, name)->0,
    )
}

/// A lookup passes over the entries with other names.
pub proof fn lemma_lookup_skips<X>(entries: Seq<(Seq<char>, X)>, name: Seq<char>, upto: int)
    requires
        0 <= upto <= entries.len(),
        forall|j: int| 0 <= j < upto ==> (#[trigger] entries[j]).0 != name,
    ensures
        lookup(entries, name) == lookup(entries.skip(upto), name),
    decreases upto,
{
    if upto == 0 {
        assert(entries.skip(0) =~= entries);
    } else {
        assert(entries[0].0 != name);
        let rest = entries.skip(1);
        assert forall|j: int| 0 <= j < upto - 1 implies (#[trigger] rest[j]).0 != name by {
            assert(rest[j] == entries[j + 1]);
        }
        lemma_lookup_skips(rest, name, upto - 1);
        assert(rest.skip(upto - 1) =~= entries.skip(upto));
    }
}

/// A lookup that finds a value finds it in the first entry of that name.
pub proof fn lemma_lookup_found<X>(entries: Seq<(Seq<char>, X)>, name: Seq<char>) -> (at: int)
    requires
        lookup(entries, name) is Some,
    ensures
        0 <= at < entries.len(),
        entries[at].0 == name,
        forall|j: int| 0 <= j < at ==> (#[trigger] entries[j]).0 != name,
        lookup(entries, name) == Some(entries[at].1),
    decreases entries.len(),
{
    if entries[0].0 == name {
        0
    } else {
        let rest = lemma_lookup_found(entries.skip(1), name);
        assert forall|j: int| 0 <= j < rest + 1 implies (#[trigger] entries[j]).0 != name by {
            if j > 0 {
                assert(entries.skip(1)[j - 1] == entries[j]);
            }
        }
        rest + 1
    }
}

/// Overwriting the first entry of a name records the value for that name and
/// leaves the other names as they were.
pub proof fn lemma_lookup_update<X>(
    entries: Seq<(Seq<char>, X)>,
    at: int,
    value: X,
    name: Seq<char>,
)
    requires
        0 <= at < entries.len(),
        forall|j: int| 0 <= j < at ==> (#[trigger] entries[j]).0 != entries[at].0,
    ensures
        lookup(entries.update(at, (entries[at].0, value)), name) == if name == entries[at].0 {
            Some(value)
        } else {
            lookup(entries, name)
        },
    decreases at,
{
    let after = entries.update(at, (entries[at].0, value));
    if at == 0 {
        assert(after.skip(1) =~= entries.skip(1));
    } else {
        let rest = entries.skip(1);
        assert forall|j: int| 0 <= j < at - 1 implies (#[trigger] rest[j]).0 != rest[at - 1].0 by {
            assert(rest[j] == entries[j + 1]);
        }
        lemma_lookup_update(rest, at - 1, value, name);
        assert(after.skip(1) =~= rest.update(at - 1, (rest[at - 1].0, value)));
        assert(entries[0].0 != entries[at].0);
    }
}

/// A new entry, wherever it is put, records the value for a name that had
/// none and leaves the other names as they were.
pub proof fn lemma_lookup_insert<X>(
    entries: Seq<(Seq<char>, X)>,
    at: int,
    added: Seq<char>,
    value: X,
    name: Seq<char>,
)
    requires
        0 <= at <= entries.len(),
        lookup(entries, added) is None,
    ensures
        lookup(entries.insert(at, (added, value)), name) == if name == added {
            Some(value)
        } else {
            lookup(entries, name)
        },
    decreases entries.len(),
{
    let after = entries.insert(at, (added, value));
    if at == 0 {
        assert(after.skip(1) =~= entries);
    } else {
        assert(after[0] == entries[0]);
        assert(after.skip(1) =~= entries.skip(1).insert(at - 1, (added, value)));
        lemma_lookup_insert(entries.skip(1), at - 1, added, value, name);
    }
}

/// The names of `entries` are in strictly increasing order.
pub open spec fn sorted_by_name<X>(entries: Seq<(Seq<char>, X)>) -> bool {
    forall|i: int, j: int|
        #![trigger entries[i], entries[j]]
        0 <= i < j < entries.len() ==> precedes(entries[i].0, entries[j].0)
}

/// The names of a sorted list are strictly increasing, hence all different.
pub proof fn lemma_sorted_names_differ<X>(entries: Seq<(Seq<char>, X)>, i: int, j: int)
    requires
        sorted_by_name(entries),
        0 <= i < entries.len(),
        0 <= j < entries.len(),
        entries[i].0 == entries[j].0,
    ensures
        i == j,
{
    lemma_precedes_irreflexive(entries[i].0);
    if i < j {
        assert(precedes(entries[i].0, entries[j].0));
    } else if j < i {
        assert(precedes(entries[j].0, entries[i].0));
    }
}

/// Putting a new entry where its name belongs keeps the order.
pub proof fn lemma_sorted_insert<X>(entries: Seq<(Seq<char>, X)>, at: int, name: Seq<char>, value: X)
    requires
        sorted_by_name(entries),
        0 <= at <= entries.len(),
        forall|j: int| 0 <= j < at ==> precedes((#[trigger] entries[j]).0, name),
        at < entries.len() ==> precedes(name, entries[at].0),
    ensures
        sorted_by_name(entries.insert(at, (name, value))),
        lookup(entries, name) is None,
{
    let after = entries.insert(at, (name, value));
    assert forall|j: int| at <= j < entries.len() implies precedes(
        name,
        (#[trigger] entries[j]).0,
    ) by {
        if at < j {
            assert(precedes(entries[at].0, entries[j].0));
            lemma_precedes_transitive(name, entries[at].0, entries[j].0);
        }
    }
    assert forall|a: int, b: int| 0 <= a < b < after.len() implies precedes(
        (#[trigger] after[a]).0,
        (#[trigger] after[b]).0,
    ) by {
        if b < at {
            assert(after[a] == entries[a] && after[b] == entries[b]);
        } else if b == at {
            assert(after[a] == entries[a]);
        } else if a < at {
            assert(after[a] == entries[a] && after[b] == entries[b - 1]);
        } else if a == at {
            assert(after[b] == entries[b - 1]);
        } else {
            assert(after[a] == entries[a - 1] && after[b] == entries[b - 1]);
        }
    }
    lemma_precedes_irreflexive(name);
    assert forall|j: int| 0 <= j < entries.len() implies (#[trigger] entries[j]).0 != name by {}
    lemma_lookup_skips(entries, name, entries.len() as int);
    assert(entries.skip(entries.len() as int).len() == 0);
}

/// In a sorted list every entry is the one that a lookup of its name finds.
pub proof fn lemma_sorted_lookup<X>(entries: Seq<(Seq<char>, X)>, i: int)
    requires
        sorted_by_name(entries),
        0 <= i < entries.len(),
    ensures
        lookup(entries, entries[i].0) == Some(entries[i].1),
{
    let name = entries[i].0;
    assert forall|j: int| 0 <= j < i implies (#[trigger] entries[j]).0 != name by {
        if entries[j].0 == name {
            lemma_sorted_names_differ(entries, i, j);
        }
    }
    lemma_lookup_skips(entries, name, i);
}

/// A map from names to values.
#[derive(Debug)]
pub struct Table<V: View> {
    entries: Vec<(String, V)>,
}

impl<V: View> View for Table<V> {
    type V = Map<Seq<char>, V::V>;

    open spec fn view(&self) -> Map<Seq<char>, V::V> {
        map_of(self.listing())
    }
}

impl<V: View> Table<V> {
    /// The entries of the table in the order of their names.
    pub closed spec fn listing(&self) -> Seq<(Seq<char>, V::V)> {
        Seq::new(self.entries@.len(), |i: int| (self.entries@[i].0@, self.entries@[i].1@))
    }

    #[verifier::type_invariant]
    spec fn ordered(&self) -> bool {
        sorted_by_name(self.listing())
    }

    /// The table without entries.
    pub fn new() -> (table: Self)
        ensures
            table@ == Map::<Seq<char>, V::V>::empty(),
            table.listing().len() == 0,
    {
        let entries: Vec<(String, V)> = Vec::new();
        assert(map_of(Seq::new(entries@.len(), |i: int| (entries@[i].0@, entries@[i].1@)))
            =~= Map::<Seq<char>, V::V>::empty());
        Table { entries }
    }

    /// The number of entries. The entries are listed in the order of their
    /// names, each name once.
    pub fn len(&self) -> (count: usize)
        ensures
            count == self.listing().len(),
            sorted_by_name(self.listing()),
    {
        proof {
            use_type_invariant(self);
        }
        self.entries.len()
    }

    /// The name of the `i`-th entry in the order of names.
    pub fn name_at(&self, i: usize) -> (name: &str)
        requires
            i < self.listing().len(),
        ensures
            name@ == self.listing()[i as int].0,
    {
        self.entries[i].0.as_str()
    }

    /// The value of the `i`-th entry in the order of names.
    pub fn value_at(&self, i: usize) -> (value: &V)
        requires
            i < self.listing().len(),
        ensures
            value@ == self.listing()[i as int].1,
    {
        &self.entries[i].1
    }

    /// The value recorded for a name.
    pub fn get(&self, name: &str) -> (value: Option<&V>)
        ensures
            match value {
                Some(v) => self@.dom().contains(name@) && self@[name@] == v@,
                None => !self@.dom().contains(name@),
            },
    {
        let mut i: usize = 0;
        while i < self.entries.len()
            invariant
                i <= self.entries.len(),
                forall|j: int| 0 <= j < i ==> (#[trigger] self.listing()[j]).0 != name@,
            decreases self.entries.len() - i,
        {
            if same_text(self.entries[i].0.as_str(), name) {
                proof {
                    lemma_lookup_skips(self.listing(), name@, i as int);
                }
                return Some(&self.entries[i].1);
            }
            i += 1;
        }
        proof {
            lemma_lookup_skips(self.listing(), name@, i as int);
        }
        None
    }

    /// The table with `value` recorded for `name`, in place of what was
    /// recorded for it before.
    pub fn with(self, name: String, value: V) -> (table: Self)
        ensures
            table@ == self@.insert(name@, value@),
    {
        proof {
            use_type_invariant(&self);
        }
        let ghost before = self.listing();
        let ghost wanted = self@.insert(name@, value@);
        let key = chars_of(name.as_str());
        let mut entries = self.entries;
        let mut i: usize = 0;
        let mut found = false;
        while i < entries.len()
            invariant_except_break
                !found,
            invariant
                i <= entries.len(),
                before == Seq::new(entries@.len(), |k: int| (entries@[k].0@, entries@[k].1@)),
                key@ == name@,
                forall|j: int| 0 <= j < i ==> precedes((#[trigger] before[j]).0, name@),
            ensures
                found ==> i < entries.len() && before[i as int].0 == name@,
                !found ==> i < entries.len() ==> precedes(name@, before[i as int].0),
            decreases entries.len() - i,
        {
            let other = chars_of(entries[i].0.as_str());
            if same_chars(other.as_slice(), key.as_slice()) {
                found = true;
                break ;
            }
            if comes_before(key.as_slice(), other.as_slice()) {
                break ;
            }
            proof {
                lemma_precedes_total(before[i as int].0, name@);
            }
            i += 1;
        }
        if found {
            let ghost after = before.update(i as int, (name@, value@));
            entries[i] = (name, value);
            proof {
                assert(Seq::new(entries@.len(), |k: int| (entries@[k].0@, entries@[k].1@))
                    =~= after);
                assert forall|a: int, b: int| 0 <= a < b < after.len() implies precedes(
                    (#[trigger] after[a]).0,
                    (#[trigger] after[b]).0,
                ) by {
                    assert(precedes(before[a].0, before[b].0));
                }
                assert forall|j: int| 0 <= j < i implies (#[trigger] before[j]).0 != before[i as int].0 by {
                    if before[j].0 == before[i as int].0 {
                        lemma_sorted_names_differ(before, i as int, j);
                    }
                }
                assert forall|k: Seq<char>| lookup(after, k) == if k == before[i as int].0 {
                    Some(after[i as int].1)
                } else {
                    lookup(before, k)
                } by {
                    lemma_lookup_update(before, i as int, after[i as int].1, k);
                }
                assert(map_of(after) =~= wanted);
            }
            Table { entries }
        } else {
            let ghost after = before.insert(i as int, (name@, value@));
            entries.insert(i, (name, value));
            proof {
                assert(Seq::new(entries@.len(), |k: int| (entries@[k].0@, entries@[k].1@))
                    =~= after);
                lemma_sorted_insert(before, i as int, after[i as int].0, after[i as int].1);
                assert forall|k: Seq<char>| lookup(after, k) == if k == after[i as int].0 {
                    Some(after[i as int].1)
                } else {
                    lookup(before, k)
                } by {
                    lemma_lookup_insert(before, i as int, after[i as int].0, after[i as int].1, k);
                }
                assert(map_of(after) =~= wanted);
            }
            Table { entries }
        }
    }
}

} // verus!
