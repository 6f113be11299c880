//! What holds of the library as a whole, stated over the spec functions that
//! the contracts of its functions use, and proved.

use crate::compiler::{compile_spec, expand};
use crate::engine::{engine_accepts, engine_search, SearchOutcome};
use crate::error::{Failure, MAX_RECURSION};
use crate::expansion::{
    expand_found, lemma_substitute_keeps_tags_fresh, process, start, store_after_found,
    store_with, substitute_once, substitute_times, tags_are_fresh, Progress,
};
use crate::table::sorted_by_name;
use crate::pattern::Pattern;
use crate::placeholder::{placeholder_of, Occurrence, PLACEHOLDER_GRAMMAR};
use crate::text::precedes;
use vstd::prelude::*;

verus! {

/// The expansion goes on for `rounds` rounds at least, budget or not: in
/// each of them the search finds a placeholder, and the placeholder is
/// processed without a failure.
pub open spec fn runs_for(
    store: Map<Seq<char>, Seq<char>>,
    progress: Progress,
    alias_only: bool,
    rounds: nat,
) -> bool
    decreases rounds,
{
    rounds == 0 || match engine_search(PLACEHOLDER_GRAMMAR@, progress.working) {
        SearchOutcome::Found(groups) => match placeholder_of(groups) {
            Ok(occurrence) => match process(
                store_with(store, occurrence),
                progress,
                occurrence,
                alias_only,
            ) {
                Ok(next) => runs_for(
                    store_with(store, occurrence),
                    next,
                    alias_only,
                    (rounds - 1) as nat,
                ),
                Err(_) => false,
            },
            Err(_) => false,
        },
        _ => false,
    }
}

/// `progress` with another budget.
pub open spec fn with_budget(progress: Progress, budget: nat) -> Progress {
    Progress { budget, ..progress }
}

/// Replacing occurrences does the same to the pattern whatever the budget.
pub proof fn lemma_substitute_any_budget(
    progress: Progress,
    body: Seq<char>,
    occurrence: Occurrence,
    alias_only: bool,
    times: nat,
    budget: nat,
)
    ensures
        substitute_times(with_budget(progress, budget), body, occurrence, alias_only, times)
            == with_budget(
            substitute_times(progress, body, occurrence, alias_only, times),
            budget,
        ),
    decreases times,
{
    if times > 0 {
        assert(substitute_once(with_budget(progress, budget), body, occurrence, alias_only)
            == with_budget(substitute_once(progress, body, occurrence, alias_only), budget));
        lemma_substitute_any_budget(
            substitute_once(progress, body, occurrence, alias_only),
            body,
            occurrence,
            alias_only,
            (times - 1) as nat,
            budget,
        );
    }
}

/// Processing a placeholder does the same to the pattern whatever the
/// budget.
pub proof fn lemma_process_any_budget(
    store: Map<Seq<char>, Seq<char>>,
    progress: Progress,
    occurrence: Occurrence,
    alias_only: bool,
    budget: nat,
)
    ensures
        process(store, with_budget(progress, budget), occurrence, alias_only) == match process(
            store,
            progress,
            occurrence,
            alias_only,
        ) {
            Ok(next) => Ok::<Progress, Failure>(with_budget(next, budget)),
            Err(failure) => Err::<Progress, Failure>(failure),
        },
{
    if store.dom().contains(occurrence.pattern) {
        lemma_substitute_any_budget(
            progress,
            store[occurrence.pattern],
            occurrence,
            alias_only,
            crate::text::count_occurrences(progress.working, occurrence.token()),
            budget,
        );
    }
}

/// How long an expansion goes on does not depend on the budget.
pub proof fn lemma_runs_for_any_budget(
    store: Map<Seq<char>, Seq<char>>,
    progress: Progress,
    alias_only: bool,
    rounds: nat,
    budget: nat,
)
    ensures
        runs_for(store, with_budget(progress, budget), alias_only, rounds) == runs_for(
            store,
            progress,
            alias_only,
            rounds,
        ),
    decreases rounds,
{
    if rounds > 0 {
        match engine_search(PLACEHOLDER_GRAMMAR@, progress.working) {
            SearchOutcome::Found(groups) => match placeholder_of(groups) {
                Ok(occurrence) => {
                    let changed = store_with(store, occurrence);
                    lemma_process_any_budget(changed, progress, occurrence, alias_only, budget);
                    match process(changed, progress, occurrence, alias_only) {
                        Ok(next) => {
                            lemma_runs_for_any_budget(
                                changed,
                                next,
                                alias_only,
                                (rounds - 1) as nat,
                                budget,
                            );
                        },
                        Err(_) => {},
                    }
                },
                Err(_) => {},
            },
            _ => {},
        }
    }
}

/// An expansion that goes on for more rounds than its budget has units ends
/// as too deep.
pub proof fn lemma_outlasting_the_budget(
    store: Map<Seq<char>, Seq<char>>,
    progress: Progress,
    alias_only: bool,
)
    requires
        runs_for(store, progress, alias_only, progress.budget + 1),
    ensures
        expand(store, progress, alias_only).1 == Err::<Progress, Failure>(
            Failure::RecursionTooDeep,
        ),
    decreases progress.budget,
{
    match engine_search(PLACEHOLDER_GRAMMAR@, progress.working) {
        SearchOutcome::Found(groups) => {
            if progress.budget > 0 {
                let occurrence = placeholder_of(groups)->Ok_0;
                let changed = store_with(store, occurrence);
                let spent = (progress.budget - 1) as nat;
                let next = process(changed, progress, occurrence, alias_only)->Ok_0;
                lemma_process_any_budget(changed, progress, occurrence, alias_only, spent);
                assert(expand_found(store, progress, groups, alias_only) == Ok::<
                    Progress,
                    Failure,
                >(with_budget(next, spent)));
                assert(store_after_found(store, progress, groups) == changed);
                crate::expansion::lemma_expand_found_spends(store, progress, groups, alias_only);
                lemma_runs_for_any_budget(changed, next, alias_only, progress.budget, spent);
                lemma_outlasting_the_budget(changed, with_budget(next, spent), alias_only);
            }
        },
        _ => {},
    }
}

/// The recursion guard. Where the expansion of a pattern does not come to an
/// end, as with a definition whose body leads back to its own placeholder,
/// the compilation fails as too deep: it is enough that the expansion goes
/// on for one round more than the budget allows. (The one other outcome is
/// that of an engine that does not compile the grammar of placeholders.)
pub proof fn law_unending_expansion_is_too_deep(
    store: Map<Seq<char>, Seq<char>>,
    pattern: Seq<char>,
    alias_only: bool,
)
    requires
        runs_for(store, start(pattern), alias_only, (MAX_RECURSION + 1) as nat),
    ensures
        compile_spec(store, pattern, alias_only).1 == Err::<crate::pattern::Compiled, Failure>(
            if engine_accepts(PLACEHOLDER_GRAMMAR@) {
                Failure::RecursionTooDeep
            } else {
                Failure::RegexCompilationFailed(PLACEHOLDER_GRAMMAR@)
            },
        ),
{
    lemma_outlasting_the_budget(store, start(pattern), alias_only);
}

/// Definitions are never deleted: whatever a store holds a body for before
/// an expansion, it holds a body for afterwards.
pub proof fn lemma_expansion_keeps_names(
    store: Map<Seq<char>, Seq<char>>,
    progress: Progress,
    alias_only: bool,
    name: Seq<char>,
)
    requires
        store.dom().contains(name),
    ensures
        expand(store, progress, alias_only).0.dom().contains(name),
    decreases progress.budget,
{
    match engine_search(PLACEHOLDER_GRAMMAR@, progress.working) {
        SearchOutcome::Found(groups) => {
            let changed = store_after_found(store, progress, groups);
            assert(changed.dom().contains(name));
            match expand_found(store, progress, groups, alias_only) {
                Ok(next) => {
                    crate::expansion::lemma_expand_found_spends(
                        store,
                        progress,
                        groups,
                        alias_only,
                    );
                    lemma_expansion_keeps_names(changed, next, alias_only, name);
                },
                Err(_) => {},
            }
        },
        _ => {},
    }
}

/// Definitions are never deleted: a compilation, successful or not, leaves
/// every name of the store with a body. (Inline definitions may change the
/// body of a name, and may add names.)
pub proof fn law_definitions_are_never_deleted(
    store: Map<Seq<char>, Seq<char>>,
    pattern: Seq<char>,
    alias_only: bool,
    name: Seq<char>,
)
    requires
        store.dom().contains(name),
    ensures
        compile_spec(store, pattern, alias_only).0.dom().contains(name),
{
    lemma_expansion_keeps_names(store, start(pattern), alias_only, name);
}

/// An expansion keeps the tags fresh from round to round.
pub proof fn lemma_expansion_keeps_tags_fresh(
    store: Map<Seq<char>, Seq<char>>,
    progress: Progress,
    alias_only: bool,
)
    requires
        tags_are_fresh(progress),
    ensures
        expand(store, progress, alias_only).1 matches Ok(end) ==> tags_are_fresh(end),
    decreases progress.budget,
{
    match engine_search(PLACEHOLDER_GRAMMAR@, progress.working) {
        SearchOutcome::Found(groups) => {
            if progress.budget > 0 {
                match placeholder_of(groups) {
                    Ok(occurrence) => {
                        let changed = store_with(store, occurrence);
                        let spent = with_budget(progress, (progress.budget - 1) as nat);
                        match process(changed, spent, occurrence, alias_only) {
                            Ok(next) => {
                                if changed.dom().contains(occurrence.pattern) {
                                    lemma_substitute_keeps_tags_fresh(
                                        spent,
                                        changed[occurrence.pattern],
                                        occurrence,
                                        alias_only,
                                        crate::text::count_occurrences(
                                            spent.working,
                                            occurrence.token(),
                                        ),
                                    );
                                }
                                crate::expansion::lemma_expand_found_spends(
                                    store,
                                    progress,
                                    groups,
                                    alias_only,
                                );
                                lemma_expansion_keeps_tags_fresh(changed, next, alias_only);
                            },
                            Err(_) => {},
                        }
                    },
                    Err(_) => {},
                }
            }
        },
        _ => {},
    }
}

/// Every capturing group gets a tag of its own: in the state in which the
/// expansion of a pattern ends, the indices on record are below the index of
/// the next group, and no two field names share an index.
pub proof fn law_tags_are_fresh(
    store: Map<Seq<char>, Seq<char>>,
    pattern: Seq<char>,
    alias_only: bool,
)
    ensures
        expand(store, start(pattern), alias_only).1 matches Ok(end) ==> tags_are_fresh(end),
{
    lemma_expansion_keeps_tags_fresh(store, start(pattern), alias_only);
}

/// Listing the field names of a compiled pattern gives the same sequence
/// every time, and the sequence is in strictly increasing order: what two
/// calls of `capture_names` return, `first` and `second`, is the same.
pub proof fn law_field_listing_is_repeatable(
    pattern: Pattern,
    first: Seq<Seq<char>>,
    second: Seq<Seq<char>>,
)
    requires
        first == pattern.field_names(),
        second == pattern.field_names(),
        sorted_by_name(pattern.listing()),
    ensures
        first == second,
        forall|i: int, j: int| 0 <= i < j < first.len() ==> precedes(first[i], first[j]),
{
    assert forall|i: int, j: int| 0 <= i < j < first.len() implies precedes(first[i], first[j]) by {
        assert(precedes(pattern.listing()[i].0, pattern.listing()[j].0));
    }
}

} // verus!
