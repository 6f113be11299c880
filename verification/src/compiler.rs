//! The compiler: from a pattern with placeholders to a compiled pattern.
//!
//! A pattern is searched for a placeholder, the placeholder's occurrences are
//! replaced by the body of its definition, and so on until the search finds
//! none. Bodies may hold placeholders of their own, which later rounds
//! expand; a budget bounds the number of rounds. What is left is compiled by
//! the engine.

use crate::engine::{engine_accepts, engine_search, matcher_source, search, SearchOutcome};
use crate::error::{Error, Failure};
use crate::expansion::{
    expand_found, lemma_expand_found_spends, start, store_after_found, Expansion, Progress,
};
use crate::pattern::{assemble, Compiled, Pattern};
use crate::placeholder::PLACEHOLDER_GRAMMAR;
use crate::store::Grok;
use onig::Regex;
use vstd::prelude::*;

verus! {

/// The store and the state in which the expansion ends, or the failure that
/// ends it. Each round searches the pattern for a placeholder: where the
/// engine finds none the expansion is complete, and a placeholder found is
/// dealt with as `expand_found` says.
pub open spec fn expand(store: Map<Seq<char>, Seq<char>>, progress: Progress, alias_only: bool) -> (
    Map<Seq<char>, Seq<char>>,
    Result<Progress, Failure>,
)
    decreases progress.budget,
    via expand_decreases
{
    match engine_search(PLACEHOLDER_GRAMMAR@, progress.working) {
        SearchOutcome::GaveUp => (
            store,
            Err(Failure::GenericCompilationFailure("Could not search for placeholders"@)),
        ),
        SearchOutcome::NotFound => (store, Ok(progress)),
        SearchOutcome::Found(groups) => {
            let changed = store_after_found(store, progress, groups);
            match expand_found(store, progress, groups, alias_only) {
                Err(failure) => (changed, Err(failure)),
                Ok(next) => expand(changed, next, alias_only),
            }
        },
    }
}

#[via_fn]
proof fn expand_decreases(store: Map<Seq<char>, Seq<char>>, progress: Progress, alias_only: bool) {
    match engine_search(PLACEHOLDER_GRAMMAR@, progress.working) {
        SearchOutcome::Found(groups) => {
            lemma_expand_found_spends(store, progress, groups, alias_only);
        },
        _ => {},
    }
}

/// The store after a compilation, and the compiled pattern or the failure
/// that the compilation comes to. The grammar of placeholders has to
/// compile; the pattern is expanded; what is left may not be empty and has
/// to compile.
pub open spec fn compile_spec(store: Map<Seq<char>, Seq<char>>, pattern: Seq<char>, alias_only: bool)
    -> (Map<Seq<char>, Seq<char>>, Result<Compiled, Failure>) {
    if !engine_accepts(PLACEHOLDER_GRAMMAR@) {
        (store, Err(Failure::RegexCompilationFailed(PLACEHOLDER_GRAMMAR@)))
    } else {
        let (changed, expanded) = expand(store, start(pattern), alias_only);
        match expanded {
            Err(failure) => (changed, Err(failure)),
            Ok(progress) => if progress.working.len() == 0 {
                (changed, Err(Failure::CompiledPatternIsEmpty(pattern)))
            } else {
                (changed, assemble(progress.working, progress.aliases))
            },
        }
    }
}

impl Grok {
    /// Compiles the given pattern, making it ready for matching.
    ///
    /// Inline definitions of the pattern's placeholders go into the store
    /// and stay there, whether or not the compilation succeeds.
    pub fn compile(&mut self, pattern: &str, with_alias_only: bool) -> (result: Result<
        Pattern,
        Error,
    >)
        ensures
            final(self)@ == compile_spec(old(self)@, pattern@, with_alias_only).0,
            match result {
                Ok(compiled) => compile_spec(old(self)@, pattern@, with_alias_only).1 == Ok::<
                    Compiled,
                    Failure,
                >(compiled@),
                Err(error) => compile_spec(old(self)@, pattern@, with_alias_only).1 == Err::<
                    Compiled,
                    Failure,
                >(error@),
            },
    {
        let ghost before = self@;
        let grammar = match Regex::new(PLACEHOLDER_GRAMMAR) {
            Ok(grammar) => grammar,
            Err(_) => {
                return Err(Error::RegexCompilationFailed(String::from_str(PLACEHOLDER_GRAMMAR)));
            },
        };
        let mut state = Expansion::new(pattern);
        loop
            invariant
                before == old(self)@,
                engine_accepts(PLACEHOLDER_GRAMMAR@),
                matcher_source(&grammar) == PLACEHOLDER_GRAMMAR@,
                expand(before, start(pattern@), with_alias_only) == expand(
                    self@,
                    state@,
                    with_alias_only,
                ),
            ensures
                expand(before, start(pattern@), with_alias_only) == (
                    self@,
                    Ok::<Progress, Failure>(state@),
                ),
            decreases state@.budget,
        {
            let working = state.working();
            match search(&grammar, working.as_str()) {
                Err(_) => {
                    return Err(
                        Error::GenericCompilationFailure(
                            String::from_str("Could not search for placeholders"),
                        ),
                    );
                },
                Ok(None) => {
                    break ;
                },
                Ok(Some(groups)) => {
                    proof {
                        lemma_expand_found_spends(
                            self@,
                            state@,
                            groups.deep_view(),
                            with_alias_only,
                        );
                    }
                    match self.expand_found(state, &groups, with_alias_only) {
                        Ok(next) => {
                            state = next;
                        },
                        Err(error) => {
                            return Err(error);
                        },
                    }
                },
            }
        }
        let flat = state.working();
        if flat.as_str().is_empty() {
            Err(Error::CompiledPatternIsEmpty(String::from_str(pattern)))
        } else {
            Pattern::new(flat.as_str(), &state)
        }
    }
}

} // verus!
