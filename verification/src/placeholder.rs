//! Placeholders: the `%{NAME:alias=definition}` tokens of a pattern.

use crate::error::{Error, Failure};
use crate::text::{append_chars, chars_of, string_of};
use vstd::prelude::*;

verus! {

/// The expression that finds a placeholder. Its capture groups are, by
/// number: 1 the placeholder's whole name (the definition's name and, after
/// a colon, the alias), 2 the definition's name, 3 the alias, 4 the inline
/// definition.
pub const PLACEHOLDER_GRAMMAR: &'static str =
    r"%\{(?<name>(?<pattern>[A-z0-9]+)(?::(?<alias>[A-z0-9_:;\/\s\.]+))?)(?:=(?<definition>(?:(?:[^{}]+|\.+)+)+))?\}";

/// The number of the group that holds the placeholder's whole name.
pub const NAME_INDEX: usize = 1;

/// The number of the group that holds the definition's name.
pub const PATTERN_INDEX: usize = 2;

/// The number of the group that holds the alias.
pub const ALIAS_INDEX: usize = 3;

/// The number of the group that holds the inline definition.
pub const DEFINITION_INDEX: usize = 4;

/// A placeholder occurrence as contracts speak of it.
pub struct Occurrence {
    /// The whole name: the definition's name and, after a colon, the alias.
    pub name: Seq<char>,
    /// The name of the definition that the placeholder stands for.
    pub pattern: Seq<char>,
    /// The field name that the user gave.
    pub alias: Option<Seq<char>>,
    /// The body that the placeholder itself gives for its definition.
    pub definition: Option<Seq<char>>,
}

impl Occurrence {
    /// What stands between the braces: the whole name and, after an equals
    /// sign, the inline definition.
    pub open spec fn surface(self) -> Seq<char> {
        match self.definition {
            Some(definition) => self.name + seq!['='] + definition,
            None => self.name,
        }
    }

    /// The placeholder as it is written in a pattern.
    pub open spec fn token(self) -> Seq<char> {
        seq!['%', '{'] + self.surface() + seq!['}']
    }

    /// The name of the field that the placeholder's value goes by: the
    /// alias, or without one what stands between the braces.
    pub open spec fn field_name(self) -> Seq<char> {
        match self.alias {
            Some(alias) => alias,
            None => self.surface(),
        }
    }

    /// Whether the placeholder becomes a capturing group: always, unless
    /// only aliased placeholders are to capture and this one has no alias.
    pub open spec fn captures(self, alias_only: bool) -> bool {
        !alias_only || self.alias is Some
    }
}

/// The text of group `i`, if the group exists and took part in the match.
pub open spec fn group_text(groups: Seq<Option<Seq<char>>>, i: int) -> Option<Seq<char>> {
    if 0 <= i < groups.len() {
        groups[i]
    } else {
        None
    }
}

/// The placeholder that the groups of a match of the grammar describe. The
/// definition's name and the whole name are required, in this order.
pub open spec fn placeholder_of(groups: Seq<Option<Seq<char>>>) -> Result<Occurrence, Failure> {
    match group_text(groups, PATTERN_INDEX as int) {
        None => Err(Failure::GenericCompilationFailure("Could not find pattern in matches"@)),
        Some(pattern) => match group_text(groups, NAME_INDEX as int) {
            None => Err(Failure::GenericCompilationFailure("Could not find name in matches"@)),
            Some(name) => Ok(
                Occurrence {
                    name,
                    pattern,
                    alias: group_text(groups, ALIAS_INDEX as int),
                    definition: group_text(groups, DEFINITION_INDEX as int),
                },
            ),
        },
    }
}

/// A placeholder occurrence.
#[derive(Debug)]
pub struct Placeholder {
    /// The whole name: the definition's name and, after a colon, the alias.
    pub name: String,
    /// The name of the definition that the placeholder stands for.
    pub pattern: String,
    /// The field name that the user gave.
    pub alias: Option<String>,
    /// The body that the placeholder itself gives for its definition.
    pub definition: Option<String>,
}

/// The characters of an optional text.
pub open spec fn optional_text(text: Option<String>) -> Option<Seq<char>> {
    match text {
        Some(t) => Some(t@),
        None => None,
    }
}

impl View for Placeholder {
    type V = Occurrence;

    open spec fn view(&self) -> Occurrence {
        Occurrence {
            name: self.name@,
            pattern: self.pattern@,
            alias: optional_text(self.alias),
            definition: optional_text(self.definition),
        }
    }
}

/// The text of group `i`, if the group exists and took part in the match.
fn group_at(groups: &Vec<Option<String>>, i: usize) -> (text: Option<String>)
    ensures
        optional_text(text) == group_text(groups.deep_view(), i as int),
{
    if i < groups.len() {
        match &groups[i] {
            Some(text) => Some(text.clone()),
            None => None,
        }
    } else {
        None
    }
}

impl Placeholder {
    /// The placeholder that the groups of a match of the grammar describe.
    pub fn from_groups(groups: &Vec<Option<String>>) -> (found: Result<Placeholder, Error>)
        ensures
            match found {
                Ok(placeholder) => placeholder_of(groups.deep_view()) == Ok::<Occurrence, Failure>(
                    placeholder@,
                ),
                Err(error) => placeholder_of(groups.deep_view()) == Err::<Occurrence, Failure>(
                    error@,
                ),
            },
    {
        let pattern = match group_at(groups, PATTERN_INDEX) {
            Some(pattern) => pattern,
            None => {
                return Err(
                    Error::GenericCompilationFailure(
                        String::from_str("Could not find pattern in matches"),
                    ),
                );
            },
        };
        let name = match group_at(groups, NAME_INDEX) {
            Some(name) => name,
            None => {
                return Err(
                    Error::GenericCompilationFailure(
                        String::from_str("Could not find name in matches"),
                    ),
                );
            },
        };
        let alias = group_at(groups, ALIAS_INDEX);
        let definition = group_at(groups, DEFINITION_INDEX);
        Ok(Placeholder { name, pattern, alias, definition })
    }

    /// What stands between the braces.
    fn surface(&self) -> (surface: Vec<char>)
        ensures
            surface@ == self@.surface(),
    {
        let mut surface = chars_of(self.name.as_str());
        match &self.definition {
            Some(definition) => {
                surface.push('=');
                let body = chars_of(definition.as_str());
                append_chars(&mut surface, body.as_slice());
            },
            None => {},
        }
        surface
    }

    /// The placeholder as it is written in a pattern.
    pub fn token(&self) -> (token: String)
        ensures
            token@ == self@.token(),
    {
        let mut token: Vec<char> = Vec::new();
        token.push('%');
        token.push('{');
        let surface = self.surface();
        append_chars(&mut token, surface.as_slice());
        token.push('}');
        assert(token@ =~= self@.token());
        string_of(token.as_slice())
    }

    /// The name of the field that the placeholder's value goes by.
    pub fn field_name(&self) -> (field: String)
        ensures
            field@ == self@.field_name(),
    {
        match &self.alias {
            Some(alias) => alias.clone(),
            None => {
                let surface = self.surface();
                string_of(surface.as_slice())
            },
        }
    }

    /// Whether the placeholder becomes a capturing group.
    pub fn captures(&self, alias_only: bool) -> (capture: bool)
        ensures
            capture == self@.captures(alias_only),
    {
        !alias_only || self.alias.is_some()
    }
}

} // verus!
