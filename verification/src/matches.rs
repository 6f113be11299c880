//! The result of a match: the value of each field of a compiled pattern in
//! one text.

use crate::placeholder::group_text;
use crate::table::{map_of, sorted_by_name, Table};
use vstd::prelude::*;

verus! {

/// The result of a match as contracts speak of it.
pub struct Captured {
    /// For each field name the number of the capture group that holds the
    /// field's value.
    pub fields: Map<Seq<char>, u32>,
    /// The text of each capture group: group 0 is the whole match, and a
    /// group that took no part in the match has `None`.
    pub groups: Seq<Option<Seq<char>>>,
}

/// The value of a capture group: its text, and the empty text for a group
/// that took no part in the match.
pub open spec fn captured(groups: Seq<Option<Seq<char>>>, group: u32) -> Seq<char> {
    match group_text(groups, group as int) {
        Some(text) => text,
        None => Seq::empty(),
    }
}

/// The `Matches` represent matched results from a `Pattern` against a
/// provided text.
#[derive(Debug)]
pub struct Matches<'a> {
    groups: Vec<Option<String>>,
    names: &'a Table<u32>,
}

impl<'a> View for Matches<'a> {
    type V = Captured;

    closed spec fn view(&self) -> Captured {
        Captured { fields: self.names@, groups: self.groups.deep_view() }
    }
}

impl<'a> Matches<'a> {
    #[verifier::type_invariant]
    spec fn matched(&self) -> bool {
        self.groups@.len() >= 1
    }

    /// The fields in the order of their names, each with its capture group.
    pub closed spec fn listing(&self) -> Seq<(Seq<char>, u32)> {
        self.names.listing()
    }

    /// The fields in the order of their names, each with its value.
    pub open spec fn entries(&self) -> Seq<(Seq<char>, Seq<char>)> {
        Seq::new(
            self.listing().len(),
            |i: int| (self.listing()[i].0, captured(self@.groups, self.listing()[i].1)),
        )
    }

    /// The matches that the groups of a found match make with the fields of
    /// a pattern. A match has at least its group 0, the whole match.
    pub fn new(groups: Vec<Option<String>>, names: &'a Table<u32>) -> (made: Option<Self>)
        ensures
            made is Some <==> groups@.len() >= 1,
            made matches Some(matches) ==> {
                &&& matches@.groups == groups.deep_view()
                &&& matches@.fields == names@
                &&& matches.listing() == names.listing()
            },
    {
        if groups.len() >= 1 {
            Some(Matches { groups, names })
        } else {
            None
        }
    }

    /// The value of a capture group.
    fn value(&self, group: u32) -> (text: &str)
        ensures
            text@ == captured(self@.groups, group),
    {
        let at = group as usize;
        if at < self.groups.len() {
            match &self.groups[at] {
                Some(text) => {
                    return text.as_str();
                },
                None => {},
            }
        }
        proof {
            reveal_strlit("");
        }
        assert(""@ =~= Seq::<char>::empty());
        ""
    }

    /// Gets the value for the name (or) alias if found, `None` otherwise.
    ///
    /// The value of a field whose group took no part in the match is the
    /// empty text.
    pub fn get(&self, name_or_alias: &str) -> (value: Option<&str>)
        ensures
            match value {
                Some(text) => self@.fields.dom().contains(name_or_alias@) && text@ == captured(
                    self@.groups,
                    self@.fields[name_or_alias@],
                ),
                None => !self@.fields.dom().contains(name_or_alias@),
            },
    {
        match self.names.get(name_or_alias) {
            Some(group) => Some(self.value(*group)),
            None => None,
        }
    }

    /// Returns the number of matches: the number of capture groups of the
    /// match, the whole match not counted.
    pub fn len(&self) -> (count: usize)
        ensures
            count == self@.groups.len() - 1,
    {
        proof {
            use_type_invariant(self);
        }
        self.groups.len() - 1
    }

    /// Returns true if there are no matches, false otherwise.
    pub fn is_empty(&self) -> (empty: bool)
        ensures
            empty == (self@.groups.len() == 1),
    {
        self.len() == 0
    }

    /// Returns a tuple of key/value with all the matches found.
    ///
    /// Note that if no match is found, the value is empty. The fields come
    /// in the order of their names, each once.
    pub fn iter(&'a self) -> (iter: MatchesIter<'a>)
        ensures
            iter.rest() == self.entries(),
            sorted_by_name(self.entries()),
            self@.fields == map_of(self.listing()),
    {
        let count = self.names.len();
        proof {
            let entries = self.entries();
            assert forall|i: int, j: int| 0 <= i < j < entries.len() implies crate::text::precedes(
                (#[trigger] entries[i]).0,
                (#[trigger] entries[j]).0,
            ) by {
                assert(crate::text::precedes(self.listing()[i].0, self.listing()[j].0));
            }
            assert(self.entries().skip(0) =~= self.entries());
        }
        MatchesIter { matches: self, position: 0 }
    }
}

impl<'a> IntoIterator for &'a Matches<'a> {
    type Item = (&'a str, &'a str);

    type IntoIter = MatchesIter<'a>;

    fn into_iter(self) -> (iter: MatchesIter<'a>)
        ensures
            iter.rest() == self.entries(),
    {
        self.iter()
    }
}

/// A walk over all matches, accessible via `Matches`.
#[derive(Debug)]
pub struct MatchesIter<'a> {
    matches: &'a Matches<'a>,
    position: usize,
}

impl<'a> MatchesIter<'a> {
    #[verifier::type_invariant]
    spec fn within(&self) -> bool {
        self.position <= self.matches.listing().len()
    }

    /// The fields that the walk has yet to give, each with its value.
    pub closed spec fn rest(&self) -> Seq<(Seq<char>, Seq<char>)> {
        self.matches.entries().skip(self.position as int)
    }
}

impl<'a> Iterator for MatchesIter<'a> {
    type Item = (&'a str, &'a str);

    /// The next field with its value, or `None` when every field was given.
    fn next(&mut self) -> (item: Option<(&'a str, &'a str)>)
        ensures
            match item {
                Some((name, value)) => {
                    &&& old(self).rest().len() > 0
                    &&& (name@, value@) == old(self).rest()[0]
                    &&& final(self).rest() == old(self).rest().skip(1)
                },
                None => old(self).rest().len() == 0 && final(self).rest() == old(self).rest(),
            },
    {
        proof {
            use_type_invariant(&*self);
        }
        let matches = self.matches;
        let at = self.position;
        if at < matches.names.len() {
            let name = matches.names.name_at(at);
            let value = matches.value(*matches.names.value_at(at));
            self.position = at + 1;
            proof {
                assert(matches.entries().skip(at as int).skip(1) =~= matches.entries().skip(
                    at + 1,
                ));
            }
            Some((name, value))
        } else {
            None
        }
    }
}

/// The walk is specified by the contract of `next` over `rest`, which speaks
/// of the text of the items; the prophetic interface, which speaks of the
/// references themselves, is left unused.
impl<'a> vstd::std_specs::iter::IteratorSpecImpl for MatchesIter<'a> {
    open spec fn obeys_prophetic_iter_laws(&self) -> bool {
        false
    }

    open spec fn remaining(&self) -> Seq<Self::Item> {
        Seq::empty()
    }

    open spec fn will_return_none(&self) -> bool {
        true
    }

    open spec fn decrease(&self) -> Option<nat> {
        None
    }

    open spec fn initial_value_relation(&self, init: &Self) -> bool {
        true
    }

    open spec fn peek(&self, index: int) -> Option<Self::Item> {
        None
    }
}

} // verus!
