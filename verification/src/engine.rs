//! The regular-expression engine, Oniguruma, as this library sees it.
//!
//! What the engine computes is not proved here. It is given names (spec
//! functions without a body), and the items below state, for each call into
//! the engine, which name its result is. The rest of the library is verified
//! against these statements alone.

use onig::Error as EngineError;
use onig::{MatchParam, Regex, Region, SearchOptions};
use vstd::prelude::*;
use vstd::slice::slice_to_vec;

verus! {

/// `onig::Regex`, a compiled expression. Its inside is hidden from the
/// verifier.
#[verifier::external_type_specification]
#[verifier::external_body]
pub struct ExRegex(onig::Regex);

/// The error type of the `onig` crate, the engine's own error value. Its
/// inside is hidden from the verifier.
#[verifier::external_type_specification]
#[verifier::external_body]
pub struct ExEngineError(EngineError);

/// What a search comes to.
pub enum SearchOutcome {
    /// A match, with the text of each capture group: group 0 is the whole
    /// match, and a group that took no part in the match has `None`.
    Found(Seq<Option<Seq<char>>>),
    /// The expression matches nowhere in the text.
    NotFound,
    /// The engine ended the search with an error of its own.
    GaveUp,
}

/// The expression that a compiled matcher was compiled from.
pub uninterp spec fn matcher_source(regex: &Regex) -> Seq<char>;

/// Whether the engine compiles the expression (in its Ruby syntax, without
/// options).
pub uninterp spec fn engine_accepts(expression: Seq<char>) -> bool;

/// What the engine's search for the leftmost match of the expression in the
/// text comes to.
pub uninterp spec fn engine_search(expression: Seq<char>, text: Seq<char>) -> SearchOutcome;

/// The named groups of the expression as the engine lists them: each name
/// with the numbers of the groups that carry it.
pub uninterp spec fn engine_names(expression: Seq<char>) -> Seq<(Seq<char>, Seq<u32>)>;

/// The outcome that a search result stands for.
pub open spec fn outcome_of(found: Result<Option<Vec<Option<String>>>, EngineError>)
    -> SearchOutcome {
    match found {
        Ok(Some(groups)) => SearchOutcome::Found(groups.deep_view()),
        Ok(None) => SearchOutcome::NotFound,
        Err(_) => SearchOutcome::GaveUp,
    }
}

/// `onig::Regex::new` compiles a pattern with the default options and the
/// Ruby syntax. Claimed: it succeeds exactly on the expressions that
/// `engine_accepts` names, and the matcher it returns is one compiled from
/// the pattern given.
pub assume_specification[ Regex::new ](pattern: &str) -> (made: Result<Regex, EngineError>)
    ensures
        made is Ok <==> engine_accepts(pattern@),
        made matches Ok(regex) ==> matcher_source(&regex) == pattern@,
;

/// `onig::Regex::search_with_param` over the whole text, from its start,
/// without options, with a fresh `onig::Region` and the default
/// `onig::MatchParam`; then `Region::len` and `Region::pos` for the groups,
/// each turned into the text that it spans. Claimed: the result is what
/// `engine_search` names for the matcher's expression and the text.
#[verifier::external_body]
pub(crate) fn search(regex: &Regex, text: &str) -> (found: Result<
    Option<Vec<Option<String>>>,
    EngineError,
>)
    ensures
        outcome_of(found) == engine_search(matcher_source(regex), text@),
{
    let mut region = Region::new();
    let options = SearchOptions::SEARCH_OPTION_NONE;
    let limits = MatchParam::default();
    let hit = regex.search_with_param(text, 0, text.len(), options, Some(&mut region), limits)?;
    let span = |i: usize| region.pos(i).and_then(|(from, to)| text.get(from..to));
    Ok(hit.map(|_| (0..region.len()).map(|i| span(i).map(String::from)).collect()))
}

/// Puts a named group at the end of a list: the name with the numbers of
/// the groups that carry it. The answer is `true`, which lets a walk over
/// the names go on.
fn keep_name(names: &mut Vec<(String, Vec<u32>)>, name: &str, groups: &[u32]) -> (go_on: bool)
    ensures
        go_on,
        final(names).deep_view() == old(names).deep_view().push((name@, groups@)),
{
    names.push((String::from_str(name), slice_to_vec(groups)));
    assert(names.deep_view() =~= old(names).deep_view().push((name@, groups@))) by {
        let added = names@[names@.len() - 1];
        assert(added.1.deep_view() =~= groups@);
    }
    true
}

/// `onig::Regex::foreach_name`, with a callback that keeps every name with
/// its group numbers and never stops the walk. Claimed: the result is what
/// `engine_names` names for the matcher's expression, in the order of the
/// calls.
#[verifier::external_body]
pub(crate) fn group_names(regex: &Regex) -> (names: Vec<(String, Vec<u32>)>)
    ensures
        names.deep_view() == engine_names(matcher_source(regex)),
{
    let mut names = Vec::new();
    regex.foreach_name(|name, groups| keep_name(&mut names, name, groups));
    names
}

} // verus!
