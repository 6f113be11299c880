//! Compiled patterns: a flat expression in the engine, and the table that
//! finds the capture group of each field by the field's name.

use crate::engine::{
    engine_accepts, engine_names, engine_search, group_names, matcher_source, search,
    SearchOutcome,
};
use crate::error::{Error, Failure};
use crate::expansion::{field_of, Expansion};
use crate::matches::Matches;
use crate::table::{map_of, sorted_by_name, Table};
use onig::Regex;
use vstd::prelude::*;

verus! {

/// A compiled pattern as contracts speak of it.
pub struct Compiled {
    /// The flat expression that the engine matches.
    pub expression: Seq<char>,
    /// For each field name the number of the capture group that holds the
    /// field's value.
    pub fields: Map<Seq<char>, u32>,
}

/// The field table that the engine's named groups give: each engine name,
/// in the engine's order, is recorded under the field name that goes with
/// it, with the first of its groups; a later name of the same field takes
/// the place of an earlier one.
pub open spec fn resolve_fields(
    names: Seq<(Seq<char>, Seq<u32>)>,
    aliases: Map<Seq<char>, nat>,
) -> Result<Map<Seq<char>, u32>, Failure>
    decreases names.len(),
{
    if names.len() == 0 {
        Ok(Map::empty())
    } else {
        match resolve_fields(names.drop_last(), aliases) {
            Err(failure) => Err(failure),
            Ok(fields) => {
                let (name, groups) = names.last();
                if groups.len() == 0 {
                    Err(Failure::GenericCompilationFailure("Could not find group of name"@))
                } else {
                    Ok(fields.insert(field_of(aliases, name), groups[0]))
                }
            },
        }
    }
}

/// What compiling a flat expression comes to: the engine has to accept it,
/// and its named groups give the field table.
pub open spec fn assemble(expression: Seq<char>, aliases: Map<Seq<char>, nat>) -> Result<
    Compiled,
    Failure,
> {
    if !engine_accepts(expression) {
        Err(Failure::RegexCompilationFailed(expression))
    } else {
        match resolve_fields(engine_names(expression), aliases) {
            Ok(fields) => Ok(Compiled { expression, fields }),
            Err(failure) => Err(failure),
        }
    }
}

/// The `Pattern` represents a compiled regex, ready to be matched against
/// arbitrary text.
#[derive(Debug)]
pub struct Pattern {
    regex: Regex,
    names: Table<u32>,
}

impl View for Pattern {
    type V = Compiled;

    closed spec fn view(&self) -> Compiled {
        Compiled { expression: matcher_source(&self.regex), fields: self.names@ }
    }
}

impl Pattern {
    /// The fields in the order of their names, each with its capture group.
    pub closed spec fn listing(&self) -> Seq<(Seq<char>, u32)> {
        self.names.listing()
    }

    /// The names of the fields in their order.
    pub open spec fn field_names(&self) -> Seq<Seq<char>> {
        Seq::new(self.listing().len(), |i: int| self.listing()[i].0)
    }

    /// The pattern that a compiled matcher makes with the named groups that
    /// the engine lists for it and the field names that the expansion
    /// recorded.
    pub fn from_parts(regex: Regex, names: Vec<(String, Vec<u32>)>, state: &Expansion) -> (made:
        Result<Pattern, Error>)
        ensures
            match made {
                Ok(pattern) => {
                    &&& resolve_fields(names.deep_view(), state@.aliases) == Ok::<
                        Map<Seq<char>, u32>,
                        Failure,
                    >(pattern@.fields)
                    &&& pattern@.expression == matcher_source(&regex)
                },
                Err(error) => resolve_fields(names.deep_view(), state@.aliases) == Err::<
                    Map<Seq<char>, u32>,
                    Failure,
                >(error@),
            },
    {
        let ghost listed = names.deep_view();
        let ghost aliases = state@.aliases;
        let mut table: Table<u32> = Table::new();
        let mut i: usize = 0;
        assert(listed.take(0).len() == 0);
        while i < names.len()
            invariant
                i <= names.len(),
                listed == names.deep_view(),
                aliases == state@.aliases,
                resolve_fields(listed.take(i as int), aliases) == Ok::<
                    Map<Seq<char>, u32>,
                    Failure,
                >(table@),
            decreases names.len() - i,
        {
            proof {
                assert(listed.take(i + 1).drop_last() =~= listed.take(i as int));
                assert(listed.take(i + 1).last() == listed[i as int]);
                assert(listed[i as int].0 == names@[i as int].0@);
                assert(listed[i as int].1.len() == names@[i as int].1@.len());
            }
            if names[i].1.len() == 0 {
                proof {
                    lemma_resolve_fails(listed, aliases, i + 1);
                }
                return Err(
                    Error::GenericCompilationFailure(
                        String::from_str("Could not find group of name"),
                    ),
                );
            }
            let field = state.field_of(names[i].0.as_str());
            assert(listed[i as int].1[0] == names@[i as int].1@[0]);
            table = table.with(field, names[i].1[0]);
            i += 1;
        }
        assert(listed.take(names.len() as int) =~= listed);
        Ok(Pattern { regex, names: table })
    }

    /// Creates a new pattern from a raw regex string and the state of the
    /// expansion that made it, whose record identifies the fields properly.
    pub fn new(expression: &str, state: &Expansion) -> (made: Result<Pattern, Error>)
        ensures
            match made {
                Ok(pattern) => assemble(expression@, state@.aliases) == Ok::<Compiled, Failure>(
                    pattern@,
                ),
                Err(error) => assemble(expression@, state@.aliases) == Err::<Compiled, Failure>(
                    error@,
                ),
            },
    {
        match Regex::new(expression) {
            Ok(regex) => {
                let names = group_names(&regex);
                Pattern::from_parts(regex, names, state)
            },
            Err(_) => Err(Error::RegexCompilationFailed(String::from_str(expression))),
        }
    }

    /// Matches this compiled `Pattern` against the text and returns the
    /// matches: those of the leftmost match that the engine finds. Where the
    /// engine finds none, or ends its search with an error, there are none.
    pub fn match_against<'a>(&'a self, text: &'a str) -> (found: Option<Matches<'a>>)
        ensures
            match found {
                Some(matches) => {
                    &&& engine_search(self@.expression, text@) == SearchOutcome::Found(
                        matches@.groups,
                    )
                    &&& matches@.fields == self@.fields
                    &&& matches.listing() == self.listing()
                },
                None => !(engine_search(self@.expression, text@) matches SearchOutcome::Found(
                    groups,
                ) && groups.len() >= 1),
            },
    {
        match search(&self.regex, text) {
            Ok(Some(groups)) => Matches::new(groups, &self.names),
            Ok(None) => None,
            Err(_) => None,
        }
    }

    /// Returns all names this `Pattern` captures, in increasing order, each
    /// once.
    pub fn capture_names(&self) -> (names: Vec<&str>)
        ensures
            names.deep_view() == self.field_names(),
            sorted_by_name(self.listing()),
            self@.fields == map_of(self.listing()),
    {
        let count = self.names.len();
        let mut names: Vec<&str> = Vec::new();
        let mut i: usize = 0;
        while i < count
            invariant
                i <= count,
                count == self.listing().len(),
                names@.len() == i,
                forall|j: int| 0 <= j < i ==> (#[trigger] names@[j])@ == self.listing()[j].0,
            decreases count - i,
        {
            names.push(self.names.name_at(i));
            i += 1;
        }
        assert(names.deep_view() =~= self.field_names());
        names
    }
}

/// Once a name without a group is met, the field table fails, whatever
/// follows.
pub proof fn lemma_resolve_fails(
    names: Seq<(Seq<char>, Seq<u32>)>,
    aliases: Map<Seq<char>, nat>,
    upto: int,
)
    requires
        0 <= upto <= names.len(),
        resolve_fields(names.take(upto), aliases) is Err,
    ensures
        resolve_fields(names, aliases) == resolve_fields(names.take(upto), aliases),
    decreases names.len() - upto,
{
    if upto == names.len() {
        assert(names.take(upto) =~= names);
    } else {
        assert(names.take(upto + 1).drop_last() =~= names.take(upto));
        lemma_resolve_fails(names, aliases, upto + 1);
    }
}

} // verus!
