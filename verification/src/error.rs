//! The ways in which compiling a pattern fails.

use crate::text::{append_chars, chars_of, decimal, decimal_digits, string_of};
use vstd::prelude::*;

verus! {

/// The number of placeholder expansions that one compilation may make.
pub const MAX_RECURSION: usize = 1024;

/// Errors that can occur when using this library.
#[derive(Clone, Debug, PartialEq)]
#[non_exhaustive]
pub enum Error {
    /// The recursion while compiling has exhausted the limit.
    RecursionTooDeep,
    /// After compiling, the resulting compiled regex pattern is empty.
    CompiledPatternIsEmpty(String),
    /// A corresponding pattern definition could not be found for the given name.
    DefinitionNotFound(String),
    /// If the compilation for a specific regex in the underlying engine failed.
    RegexCompilationFailed(String),
    /// Something is messed up during the compilation phase.
    GenericCompilationFailure(String),
}

/// An error as contracts speak of it: the variant, with the characters of
/// the text it carries.
pub enum Failure {
    RecursionTooDeep,
    CompiledPatternIsEmpty(Seq<char>),
    DefinitionNotFound(Seq<char>),
    RegexCompilationFailed(Seq<char>),
    GenericCompilationFailure(Seq<char>),
}

impl View for Error {
    type V = Failure;

    open spec fn view(&self) -> Failure {
        match self {
            Error::RecursionTooDeep => Failure::RecursionTooDeep,
            Error::CompiledPatternIsEmpty(pattern) => Failure::CompiledPatternIsEmpty(pattern@),
            Error::DefinitionNotFound(name) => Failure::DefinitionNotFound(name@),
            Error::RegexCompilationFailed(regex) => Failure::RegexCompilationFailed(regex@),
            Error::GenericCompilationFailure(what) => Failure::GenericCompilationFailure(what@),
        }
    }
}

/// The short description of each kind of failure.
pub open spec fn description_of(failure: Failure) -> Seq<char> {
    match failure {
        Failure::RecursionTooDeep => "compilation recursion reached the limit"@,
        Failure::CompiledPatternIsEmpty(_) => "compiled pattern is empty"@,
        Failure::DefinitionNotFound(_) => "pattern definition not found while compiling"@,
        Failure::RegexCompilationFailed(_) => "regex compilation in the engine failed"@,
        Failure::GenericCompilationFailure(_) => "something happened during the compilation phase"@,
    }
}

/// The full message of a failure, with the text it carries in quotes.
pub open spec fn message_of(failure: Failure) -> Seq<char> {
    match failure {
        Failure::RecursionTooDeep => "Recursion while compiling reached the limit of "@ + decimal(
            MAX_RECURSION as nat,
        ),
        Failure::CompiledPatternIsEmpty(pattern) => "The given pattern \""@ + pattern
            + "\" ended up compiling into an empty regex"@,
        Failure::DefinitionNotFound(name) => "The given pattern definition name \""@ + name
            + "\" could not be found in the definition map"@,
        Failure::RegexCompilationFailed(regex) => "The given regex \""@ + regex
            + "\" failed compilation in the underlying engine"@,
        Failure::GenericCompilationFailure(what) =>
            "Something unexpected happened during the compilation phase: \""@ + what + "\""@,
    }
}

/// `before`, `middle` and `after` in one string.
fn framed(before: &str, middle: &[char], after: &str) -> (text: String)
    ensures
        text@ == before@ + middle@ + after@,
{
    let mut chars = chars_of(before);
    append_chars(&mut chars, middle);
    let tail = chars_of(after);
    append_chars(&mut chars, tail.as_slice());
    string_of(chars.as_slice())
}

impl Error {
    /// A short description of the kind of failure.
    pub fn description(&self) -> (text: &'static str)
        ensures
            text@ == description_of(self@),
    {
        match self {
            Error::RecursionTooDeep => "compilation recursion reached the limit",
            Error::CompiledPatternIsEmpty(_) => "compiled pattern is empty",
            Error::DefinitionNotFound(_) => "pattern definition not found while compiling",
            Error::RegexCompilationFailed(_) => "regex compilation in the engine failed",
            Error::GenericCompilationFailure(_) => "something happened during the compilation phase",
        }
    }

    /// The message of the failure, as it is shown to a person.
    pub fn message(&self) -> (text: String)
        ensures
            text@ == message_of(self@),
    {
        match self {
            Error::RecursionTooDeep => {
                let mut chars = chars_of("Recursion while compiling reached the limit of ");
                let limit = decimal_digits(MAX_RECURSION as u128);
                append_chars(&mut chars, limit.as_slice());
                string_of(chars.as_slice())
            },
            Error::CompiledPatternIsEmpty(pattern) => {
                let middle = chars_of(pattern.as_str());
                framed(
                    "The given pattern \"",
                    middle.as_slice(),
                    "\" ended up compiling into an empty regex",
                )
            },
            Error::DefinitionNotFound(name) => {
                let middle = chars_of(name.as_str());
                framed(
                    "The given pattern definition name \"",
                    middle.as_slice(),
                    "\" could not be found in the definition map",
                )
            },
            Error::RegexCompilationFailed(regex) => {
                let middle = chars_of(regex.as_str());
                framed(
                    "The given regex \"",
                    middle.as_slice(),
                    "\" failed compilation in the underlying engine",
                )
            },
            Error::GenericCompilationFailure(what) => {
                let middle = chars_of(what.as_str());
                framed(
                    "Something unexpected happened during the compilation phase: \"",
                    middle.as_slice(),
                    "\"",
                )
            },
        }
    }
}

} // verus!
