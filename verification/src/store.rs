//! The definition store: the named fragments that patterns are made of.

use crate::builtin::{patterns, PATTERNS};
use crate::table::Table;
use vstd::prelude::*;
use vstd::std_specs::iter::IteratorSpec;

verus! {

/// The `Grok` struct is the main entry point into using this library.
///
/// It holds the definitions: for each name the body that a placeholder of
/// that name is replaced with. Its model is the map from names to bodies.
#[derive(Debug)]
pub struct Grok {
    patterns: Table<String>,
}

impl View for Grok {
    type V = Map<Seq<char>, Seq<char>>;

    closed spec fn view(&self) -> Map<Seq<char>, Seq<char>> {
        self.patterns@
    }
}

/// The store that holds the definitions of `pairs`, each a name and a body
/// and each recorded after the one before it, so that of two bodies for one
/// name the later one stays.
pub open spec fn collected(pairs: Seq<(&str, &str)>) -> Map<Seq<char>, Seq<char>>
    decreases pairs.len(),
{
    if pairs.len() == 0 {
        Map::empty()
    } else {
        collected(pairs.drop_last()).insert(pairs.last().0@, pairs.last().1@)
    }
}

impl Grok {
    /// Creates a new `Grok` instance with no patterns.
    pub fn empty() -> (grok: Self)
        ensures
            grok@ == Map::<Seq<char>, Seq<char>>::empty(),
    {
        Grok { patterns: Table::new() }
    }

    /// Creates a new `Grok` instance and loads all the default patterns.
    pub fn with_default_patterns() -> (grok: Self)
        ensures
            grok@ == collected(PATTERNS@),
    {
        Grok::from_pairs(patterns())
    }

    /// Creates a `Grok` instance with the given definitions, each a name and
    /// a body.
    pub fn from_pairs(pairs: &[(&str, &str)]) -> (grok: Self)
        ensures
            grok@ == collected(pairs@),
    {
        let mut grok = Grok::empty();
        let mut i: usize = 0;
        assert(pairs@.take(0) =~= Seq::<(&str, &str)>::empty());
        while i < pairs.len()
            invariant
                i <= pairs.len(),
                grok@ == collected(pairs@.take(i as int)),
            decreases pairs.len() - i,
        {
            assert(pairs@.take(i + 1).drop_last() =~= pairs@.take(i as int));
            grok.add_pattern(pairs[i].0, pairs[i].1);
            i += 1;
        }
        assert(pairs@.take(pairs.len() as int) =~= pairs@);
        grok
    }

    /// Allows to initialize Grok with an iterator of patterns. The iterator
    /// has to be one that comes to an end.
    pub fn from_iter<'a, I: Iterator<Item = (&'a str, &'a str)>>(iter: I) -> (grok: Self)
        requires
            iter.obeys_prophetic_iter_laws(),
            iter.decrease() is Some,
        ensures
            grok@ == collected(iter.remaining()),
    {
        let mut iter = iter;
        let ghost all = iter.remaining();
        let mut grok = Grok::empty();
        let ghost mut done: int = 0;
        assert(all.take(0) =~= Seq::<(&str, &str)>::empty());
        loop
            invariant
                iter.obeys_prophetic_iter_laws(),
                iter.decrease() is Some,
                0 <= done <= all.len(),
                iter.remaining() == all.skip(done),
                grok@ == collected(all.take(done)),
            ensures
                grok@ == collected(all),
            decreases iter.decrease()->0,
        {
            match iter.next() {
                Some((name, body)) => {
                    proof {
                        assert(all.take(done + 1).drop_last() =~= all.take(done));
                        assert(all.skip(done).drop_first() =~= all.skip(done + 1));
                    }
                    grok.add_pattern(name, body);
                    proof {
                        done = done + 1;
                    }
                },
                None => {
                    assert(all.take(done) =~= all);
                    break ;
                },
            }
        }
        grok
    }

    /// Adds a custom pattern: records `pattern` as the body of `name`, in
    /// place of any body recorded for that name before.
    pub fn add_pattern(&mut self, name: &str, pattern: &str)
        ensures
            final(self)@ == old(self)@.insert(name@, pattern@),
    {
        self.define(String::from_str(name), String::from_str(pattern));
    }

    /// Records `body` as the body of `name`.
    pub(crate) fn define(&mut self, name: String, body: String)
        ensures
            final(self)@ == old(self)@.insert(name@, body@),
    {
        let mut table: Table<String> = Table::new();
        std::mem::swap(&mut table, &mut self.patterns);
        self.patterns = table.with(name, body);
    }

    /// The body recorded for `name`.
    pub(crate) fn definition(&self, name: &str) -> (body: Option<&String>)
        ensures
            match body {
                Some(text) => self@.dom().contains(name@) && text@ == self@[name@],
                None => !self@.dom().contains(name@),
            },
    {
        self.patterns.get(name)
    }

    /// The body recorded for `name`.
    pub fn get(&self, name: &str) -> (body: Option<String>)
        ensures
            match body {
                Some(text) => self@.dom().contains(name@) && text@ == self@[name@],
                None => !self@.dom().contains(name@),
            },
    {
        match self.patterns.get(name) {
            Some(text) => Some(text.clone()),
            None => None,
        }
    }
}

/// The Default implementation for Grok which will load the default patterns.
impl Default for Grok {
    fn default() -> (grok: Grok)
        ensures
            grok@ == collected(PATTERNS@),
    {
        Grok::with_default_patterns()
    }
}

/// Allows to construct Grok with an array of patterns directly.
impl<'a, const N: usize> From<[(&'a str, &'a str); N]> for Grok {
    fn from(arr: [(&'a str, &'a str); N]) -> (grok: Grok)
        ensures
            grok@ == collected(arr@),
    {
        Grok::from_pairs(arr.as_slice())
    }
}

/// What `from` returns is stated by its own contract, over the model of the
/// store; no spec function gives the store itself.
impl<'a, const N: usize> vstd::std_specs::convert::FromSpecImpl<[(&'a str, &'a str); N]> for Grok {
    open spec fn obeys_from_spec() -> bool {
        false
    }

    open spec fn from_spec(arr: [(&'a str, &'a str); N]) -> Grok {
        arbitrary()
    }
}

} // verus!
