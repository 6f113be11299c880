//! The expansion of placeholders: the rewriting of a pattern, occurrence by
//! occurrence, into one flat expression, and the record of which field name
//! goes with which capture group.

use crate::error::{Error, Failure, MAX_RECURSION};
use crate::placeholder::{placeholder_of, Occurrence, Placeholder};
use crate::store::Grok;
use crate::table::{lemma_lookup_found, lemma_sorted_lookup, Table};
use crate::text::{
    append_chars, chars_of, count_matches, count_occurrences, decimal, decimal_digits,
    lemma_count_bounded, lemma_decimal_injective, replace_first, replace_leftmost, same_chars,
    string_of,
};
use vstd::prelude::*;

verus! {

/// The state of an expansion as contracts speak of it.
pub struct Progress {
    /// The pattern as far as it is rewritten.
    pub working: Seq<char>,
    /// The number of occurrences replaced so far: the index of the next
    /// group.
    pub index: nat,
    /// For each field name the index of the group that was last given it.
    pub aliases: Map<Seq<char>, nat>,
    /// The number of placeholders that may still be expanded.
    pub budget: nat,
}

/// The state in which the expansion of `pattern` starts.
pub open spec fn start(pattern: Seq<char>) -> Progress {
    Progress {
        working: pattern,
        index: 0,
        aliases: Map::empty(),
        budget: MAX_RECURSION as nat,
    }
}

/// The name that the capturing group with the given index has in the flat
/// expression.
pub open spec fn tag(index: nat) -> Seq<char> {
    seq!['g', 'r', 'o', 'u', 'p'] + decimal(index)
}

/// Different indices have different tags.
pub proof fn lemma_tag_injective(a: nat, b: nat)
    requires
        tag(a) == tag(b),
    ensures
        a == b,
{
    let prefix = seq!['g', 'r', 'o', 'u', 'p'];
    assert((prefix + decimal(a)).skip(5) =~= decimal(a));
    assert((prefix + decimal(b)).skip(5) =~= decimal(b));
    lemma_decimal_injective(a, b);
}

/// The field name `field` was last given the group that the engine knows
/// under the name `engine_name`.
pub open spec fn tagged(aliases: Map<Seq<char>, nat>, field: Seq<char>, engine_name: Seq<char>) -> bool {
    aliases.dom().contains(field) && tag(aliases[field]) == engine_name
}

/// The field name that a group goes by which the engine knows under the
/// name `engine_name`: the field name recorded for that tag, or the engine's
/// name itself where none is recorded.
pub open spec fn field_of(aliases: Map<Seq<char>, nat>, engine_name: Seq<char>) -> Seq<char> {
    if exists|field: Seq<char>| tagged(aliases, field, engine_name) {
        choose|field: Seq<char>| tagged(aliases, field, engine_name)
    } else {
        engine_name
    }
}

/// What an occurrence is replaced with: the body of its definition in a
/// group, which is named after the index if it captures.
pub open spec fn replacement(body: Seq<char>, index: nat, capture: bool) -> Seq<char> {
    if capture {
        seq!['(', '?', '<'] + tag(index) + seq!['>'] + body + seq![')']
    } else {
        seq!['(', '?', ':'] + body + seq![')']
    }
}

/// The state after the leftmost occurrence of the placeholder is replaced.
/// The index goes up whether or not the group captures.
pub open spec fn substitute_once(
    progress: Progress,
    body: Seq<char>,
    occurrence: Occurrence,
    alias_only: bool,
) -> Progress {
    let capture = occurrence.captures(alias_only);
    Progress {
        working: replace_first(
            progress.working,
            occurrence.token(),
            replacement(body, progress.index, capture),
        ),
        index: progress.index + 1,
        aliases: if capture {
            progress.aliases.insert(occurrence.field_name(), progress.index)
        } else {
            progress.aliases
        },
        budget: progress.budget,
    }
}

/// The state after `times` replacements, each of the occurrence that is
/// then the leftmost.
pub open spec fn substitute_times(
    progress: Progress,
    body: Seq<char>,
    occurrence: Occurrence,
    alias_only: bool,
    times: nat,
) -> Progress
    decreases times,
{
    if times == 0 {
        progress
    } else {
        substitute_times(
            substitute_once(progress, body, occurrence, alias_only),
            body,
            occurrence,
            alias_only,
            (times - 1) as nat,
        )
    }
}

/// The store after a placeholder is met: an inline definition is recorded
/// under the definition's name, in place of what was recorded before.
pub open spec fn store_with(store: Map<Seq<char>, Seq<char>>, occurrence: Occurrence) -> Map<
    Seq<char>,
    Seq<char>,
> {
    match occurrence.definition {
        Some(definition) => store.insert(occurrence.pattern, definition),
        None => store,
    }
}

/// What processing one placeholder comes to, once its place in the budget is
/// taken: every occurrence of the placeholder that the pattern holds at this
/// moment is replaced, as many replacements as there are occurrences that do
/// not overlap. A definition is only asked for where there is something to
/// replace.
pub open spec fn process(
    store: Map<Seq<char>, Seq<char>>,
    progress: Progress,
    occurrence: Occurrence,
    alias_only: bool,
) -> Result<Progress, Failure> {
    let times = count_occurrences(progress.working, occurrence.token());
    if times == 0 {
        Ok(progress)
    } else if !store.dom().contains(occurrence.pattern) {
        Err(Failure::DefinitionNotFound(occurrence.pattern))
    } else {
        Ok(substitute_times(progress, store[occurrence.pattern], occurrence, alias_only, times))
    }
}

/// The store after the groups of a found placeholder are dealt with.
pub open spec fn store_after_found(
    store: Map<Seq<char>, Seq<char>>,
    progress: Progress,
    groups: Seq<Option<Seq<char>>>,
) -> Map<Seq<char>, Seq<char>> {
    if progress.budget == 0 {
        store
    } else {
        match placeholder_of(groups) {
            Ok(occurrence) => store_with(store, occurrence),
            Err(_) => store,
        }
    }
}

/// What a found placeholder comes to: with no budget left the expansion is
/// too deep; else one unit of the budget is spent, the placeholder is read
/// from the groups and processed.
pub open spec fn expand_found(
    store: Map<Seq<char>, Seq<char>>,
    progress: Progress,
    groups: Seq<Option<Seq<char>>>,
    alias_only: bool,
) -> Result<Progress, Failure> {
    if progress.budget == 0 {
        Err(Failure::RecursionTooDeep)
    } else {
        match placeholder_of(groups) {
            Err(failure) => Err(failure),
            Ok(occurrence) => process(
                store_with(store, occurrence),
                Progress { budget: (progress.budget - 1) as nat, ..progress },
                occurrence,
                alias_only,
            ),
        }
    }
}

/// Replacing occurrences leaves the budget alone.
pub proof fn lemma_substitute_keeps_budget(
    progress: Progress,
    body: Seq<char>,
    occurrence: Occurrence,
    alias_only: bool,
    times: nat,
)
    ensures
        substitute_times(progress, body, occurrence, alias_only, times).budget == progress.budget,
        substitute_times(progress, body, occurrence, alias_only, times).index == progress.index
            + times,
    decreases times,
{
    if times > 0 {
        lemma_substitute_keeps_budget(
            substitute_once(progress, body, occurrence, alias_only),
            body,
            occurrence,
            alias_only,
            (times - 1) as nat,
        );
    }
}

/// Every placeholder that is processed costs one unit of the budget.
pub proof fn lemma_expand_found_spends(
    store: Map<Seq<char>, Seq<char>>,
    progress: Progress,
    groups: Seq<Option<Seq<char>>>,
    alias_only: bool,
)
    ensures
        expand_found(store, progress, groups, alias_only) matches Ok(next) ==> next.budget + 1
            == progress.budget,
{
    if progress.budget > 0 {
        match placeholder_of(groups) {
            Ok(occurrence) => {
                let spent = Progress { budget: (progress.budget - 1) as nat, ..progress };
                let times = count_occurrences(spent.working, occurrence.token());
                let store1 = store_with(store, occurrence);
                if store1.dom().contains(occurrence.pattern) {
                    lemma_substitute_keeps_budget(
                        spent,
                        store1[occurrence.pattern],
                        occurrence,
                        alias_only,
                        times,
                    );
                }
            },
            Err(_) => {},
        }
    }
}

/// The index of a capturing group.
#[derive(Debug)]
struct Tag {
    index: u128,
}

impl View for Tag {
    type V = nat;

    closed spec fn view(&self) -> nat {
        self.index as nat
    }
}

/// No two names of the map have the same value.
pub open spec fn one_to_one(aliases: Map<Seq<char>, nat>) -> bool {
    forall|f: Seq<char>, g: Seq<char>|
        #![trigger aliases[f], aliases[g]]
        aliases.dom().contains(f) && aliases.dom().contains(g) && aliases[f] == aliases[g] ==> f
            == g
}

/// Every value of the map is below `index`.
pub open spec fn all_below(aliases: Map<Seq<char>, nat>, index: nat) -> bool {
    forall|f: Seq<char>| #![trigger aliases[f]] aliases.dom().contains(f) ==> aliases[f] < index
}

/// The indices on record are those of groups made so far, and no two field
/// names have the same.
pub open spec fn tags_are_fresh(progress: Progress) -> bool {
    all_below(progress.aliases, progress.index) && one_to_one(progress.aliases)
}

/// A replacement keeps the tags fresh: the new group gets an index that no
/// group had before.
pub proof fn lemma_substitute_once_keeps_tags_fresh(
    progress: Progress,
    body: Seq<char>,
    occurrence: Occurrence,
    alias_only: bool,
)
    requires
        tags_are_fresh(progress),
    ensures
        tags_are_fresh(substitute_once(progress, body, occurrence, alias_only)),
{
    let once = substitute_once(progress, body, occurrence, alias_only);
    let field = occurrence.field_name();
    assert forall|f: Seq<char>| once.aliases.dom().contains(f) implies once.aliases[f]
        < once.index by {
        if f != field || !occurrence.captures(alias_only) {
            assert(progress.aliases.dom().contains(f));
            assert(progress.aliases[f] < progress.index);
        }
    }
    assert forall|f: Seq<char>, g: Seq<char>|
        once.aliases.dom().contains(f) && once.aliases.dom().contains(g) && once.aliases[f]
            == once.aliases[g] implies f == g by {
        if !occurrence.captures(alias_only) {
            assert(progress.aliases[f] == progress.aliases[g]);
        } else if f != field && g != field {
            assert(progress.aliases.dom().contains(f) && progress.aliases.dom().contains(g));
            assert(progress.aliases[f] == progress.aliases[g]);
        } else if f != field {
            assert(progress.aliases.dom().contains(f));
            assert(progress.aliases[f] < progress.index);
        } else if g != field {
            assert(progress.aliases.dom().contains(g));
            assert(progress.aliases[g] < progress.index);
        }
    }
}

/// Replacing occurrences keeps the tags fresh.
pub proof fn lemma_substitute_keeps_tags_fresh(
    progress: Progress,
    body: Seq<char>,
    occurrence: Occurrence,
    alias_only: bool,
    times: nat,
)
    requires
        tags_are_fresh(progress),
    ensures
        tags_are_fresh(substitute_times(progress, body, occurrence, alias_only, times)),
    decreases times,
{
    if times > 0 {
        lemma_substitute_once_keeps_tags_fresh(progress, body, occurrence, alias_only);
        lemma_substitute_keeps_tags_fresh(
            substitute_once(progress, body, occurrence, alias_only),
            body,
            occurrence,
            alias_only,
            (times - 1) as nat,
        );
    }
}

/// The most that the index can be with the given budget left: every
/// processed placeholder adds at most as many groups as a text has room for
/// occurrences.
pub open spec fn index_limit(budget: nat) -> int {
    (MAX_RECURSION - budget) * 0xFFFF_FFFF_FFFF_FFFF
}

/// The state of an expansion.
#[derive(Debug)]
pub struct Expansion {
    working: Vec<char>,
    index: u128,
    aliases: Table<Tag>,
    budget: usize,
}

impl View for Expansion {
    type V = Progress;

    closed spec fn view(&self) -> Progress {
        Progress {
            working: self.working@,
            index: self.index as nat,
            aliases: self.aliases@,
            budget: self.budget as nat,
        }
    }
}

/// The name of the group with the given index.
fn tag_chars(index: u128) -> (chars: Vec<char>)
    ensures
        chars@ == tag(index as nat),
{
    let mut chars: Vec<char> = Vec::new();
    chars.push('g');
    chars.push('r');
    chars.push('o');
    chars.push('u');
    chars.push('p');
    let digits = decimal_digits(index);
    append_chars(&mut chars, digits.as_slice());
    assert(chars@ =~= tag(index as nat));
    chars
}

/// The characters that an occurrence is replaced with.
fn replacement_chars(body: &[char], index: u128, capture: bool) -> (chars: Vec<char>)
    ensures
        chars@ == replacement(body@, index as nat, capture),
{
    let mut chars: Vec<char> = Vec::new();
    chars.push('(');
    chars.push('?');
    if capture {
        chars.push('<');
        let name = tag_chars(index);
        append_chars(&mut chars, name.as_slice());
        chars.push('>');
    } else {
        chars.push(':');
    }
    append_chars(&mut chars, body);
    chars.push(')');
    assert(chars@ =~= replacement(body@, index as nat, capture));
    chars
}

impl Expansion {
    #[verifier::type_invariant]
    spec fn sound(&self) -> bool {
        &&& self.budget <= MAX_RECURSION
        &&& self.index <= index_limit(self.budget as nat)
        &&& tags_are_fresh(self@)
    }

    /// The state in which the expansion of `pattern` starts.
    pub fn new(pattern: &str) -> (state: Self)
        ensures
            state@ == start(pattern@),
    {
        Expansion {
            working: chars_of(pattern),
            index: 0,
            aliases: Table::new(),
            budget: MAX_RECURSION,
        }
    }

    /// The pattern as far as it is rewritten.
    pub fn working(&self) -> (text: String)
        ensures
            text@ == self@.working,
    {
        string_of(self.working.as_slice())
    }

    /// The number of occurrences replaced so far.
    pub fn index(&self) -> (index: u128)
        ensures
            index == self@.index,
    {
        self.index
    }

    /// The number of placeholders that may still be expanded.
    pub fn budget(&self) -> (budget: usize)
        ensures
            budget == self@.budget,
    {
        self.budget
    }

    /// The index of the group that was last given the field name. In every
    /// state the indices on record are below the index of the next group, and
    /// no two field names have the same.
    pub fn alias(&self, field: &str) -> (index: Option<u128>)
        ensures
            match index {
                Some(i) => self@.aliases.dom().contains(field@) && self@.aliases[field@] == i,
                None => !self@.aliases.dom().contains(field@),
            },
            tags_are_fresh(self@),
    {
        proof {
            use_type_invariant(self);
        }
        match self.aliases.get(field) {
            Some(tag) => Some(tag.index),
            None => None,
        }
    }

    /// The field name that a group goes by which the engine knows under the
    /// name `engine_name`.
    pub fn field_of(&self, engine_name: &str) -> (field: String)
        ensures
            field@ == field_of(self@.aliases, engine_name@),
    {
        proof {
            use_type_invariant(self);
        }
        let wanted = chars_of(engine_name);
        let ghost listing = self.aliases.listing();
        let count = self.aliases.len();
        let mut i: usize = 0;
        while i < count
            invariant
                i <= count,
                count == listing.len(),
                listing == self.aliases.listing(),
                crate::table::sorted_by_name(listing),
                self@.aliases == crate::table::map_of(listing),
                tags_are_fresh(self@),
                wanted@ == engine_name@,
                forall|j: int| 0 <= j < i ==> tag((#[trigger] listing[j]).1) != engine_name@,
            decreases count - i,
        {
            let own = tag_chars(self.aliases.value_at(i).index);
            if same_chars(own.as_slice(), wanted.as_slice()) {
                proof {
                    let found = listing[i as int].0;
                    lemma_sorted_lookup(listing, i as int);
                    assert(tagged(self@.aliases, found, engine_name@));
                    let chosen = choose|f: Seq<char>| tagged(self@.aliases, f, engine_name@);
                    lemma_tag_injective(self@.aliases[chosen], self@.aliases[found]);
                }
                return String::from_str(self.aliases.name_at(i));
            }
            i += 1;
        }
        proof {
            if exists|f: Seq<char>| tagged(self@.aliases, f, engine_name@) {
                let f = choose|f: Seq<char>| tagged(self@.aliases, f, engine_name@);
                let at = lemma_lookup_found(listing, f);
                assert(tag(listing[at].1) != engine_name@);
            }
        }
        String::from_str(engine_name)
    }
}

impl Grok {
    /// Deals with a placeholder that a search of the pattern found: `groups`
    /// holds the text of each capture group of the match of
    /// `PLACEHOLDER_GRAMMAR`. With budget left, an inline definition goes
    /// into the store and every occurrence of the placeholder is replaced by
    /// the body of its definition.
    pub fn expand_found(
        &mut self,
        state: Expansion,
        groups: &Vec<Option<String>>,
        alias_only: bool,
    ) -> (result: Result<Expansion, Error>)
        ensures
            final(self)@ == store_after_found(old(self)@, state@, groups.deep_view()),
            match result {
                Ok(next) => expand_found(old(self)@, state@, groups.deep_view(), alias_only)
                    == Ok::<Progress, Failure>(next@),
                Err(error) => expand_found(old(self)@, state@, groups.deep_view(), alias_only)
                    == Err::<Progress, Failure>(error@),
            },
    {
        proof {
            use_type_invariant(&state);
        }
        if state.budget == 0 {
            return Err(Error::RecursionTooDeep);
        }
        let placeholder = match Placeholder::from_groups(groups) {
            Ok(placeholder) => placeholder,
            Err(error) => {
                return Err(error);
            },
        };
        match &placeholder.definition {
            Some(definition) => {
                self.define(placeholder.pattern.clone(), definition.clone());
            },
            None => {},
        }
        let token = chars_of(placeholder.token().as_str());
        let Expansion { working, index, aliases, budget } = state;
        let mut working = working;
        let mut index = index;
        let mut aliases = aliases;
        let ghost spent = Progress {
            working: working@,
            index: index as nat,
            aliases: aliases@,
            budget: (budget - 1) as nat,
        };
        proof {
            assert(token@.len() >= 3);
            assert(working@.len() == working.len());
            lemma_count_bounded(working@, token@);
        }
        let times = count_matches(working.as_slice(), token.as_slice());
        if times == 0 {
            return Ok(Expansion { working, index, aliases, budget: budget - 1 });
        }
        let body = match self.definition(placeholder.pattern.as_str()) {
            Some(body) => chars_of(body.as_str()),
            None => {
                return Err(Error::DefinitionNotFound(placeholder.pattern));
            },
        };
        let capture = placeholder.captures(alias_only);
        let field = placeholder.field_name();
        let mut done: usize = 0;
        while done < times
            invariant
                done <= times,
                field@ == placeholder@.field_name(),
                index == spent.index + done,
                spent.index <= index_limit((spent.budget + 1) as nat),
                spent.budget < MAX_RECURSION,
                capture == placeholder@.captures(alias_only),
                token@ == placeholder@.token(),
                tags_are_fresh(
                    Progress {
                        working: working@,
                        index: index as nat,
                        aliases: aliases@,
                        budget: spent.budget,
                    },
                ),
                substitute_times(spent, body@, placeholder@, alias_only, times as nat)
                    == substitute_times(
                    Progress {
                        working: working@,
                        index: index as nat,
                        aliases: aliases@,
                        budget: spent.budget,
                    },
                    body@,
                    placeholder@,
                    alias_only,
                    (times - done) as nat,
                ),
            decreases times - done,
        {
            let ghost current = Progress {
                working: working@,
                index: index as nat,
                aliases: aliases@,
                budget: spent.budget,
            };
            proof {
                lemma_substitute_once_keeps_tags_fresh(current, body@, placeholder@, alias_only);
            }
            let with = replacement_chars(body.as_slice(), index, capture);
            working = replace_leftmost(working.as_slice(), token.as_slice(), with.as_slice());
            if capture {
                aliases = aliases.with(field.clone(), Tag { index });
            }
            index = index + 1;
            done = done + 1;
        }
        Ok(Expansion { working, index, aliases, budget: budget - 1 })
    }
}

} // verus!
