//! The `grok` library allows you to quickly parse and match potentially
//! unstructured data into a structured result. It is especially helpful when
//! parsing logfiles of all kinds.
//!
//! A pattern describes a text with placeholders such as `%{IP}` or
//! `%{WORD:verb}`. Each placeholder names a definition, a fragment of a
//! regular expression that may hold placeholders of its own. A [`Grok`] holds
//! the definitions and compiles a pattern into a [`Pattern`]; matching a
//! pattern against a text gives [`Matches`], the values of the pattern's
//! fields by name.
//!
//! The library is verified with Verus. The regular-expression engine is not:
//! what it computes is named in [`engine`], and the contracts of the library
//! speak of those names.

pub mod builtin;
pub mod compiler;
pub mod engine;
pub mod error;
pub mod expansion;
pub mod laws;
pub mod matches;
pub mod pattern;
pub mod placeholder;
pub mod store;
pub mod table;
pub mod text;

pub use crate::builtin::patterns;
pub use crate::error::Error;
pub use crate::expansion::Expansion;
pub use crate::matches::{Matches, MatchesIter};
pub use crate::pattern::Pattern;
pub use crate::placeholder::Placeholder;
pub use crate::store::Grok;
