//! Operations on character sequences: conversion between strings and
//! character vectors, literal search, counting and replacement, decimal
//! numerals and the lexicographic order.
//!
//! Every executable function here is specified against a spec function over
//! `Seq<char>`, the view of `str` and `String`.

use vstd::prelude::*;
use vstd::slice::slice_subrange;

verus! {

// ---------------------------------------------------------------------------
// Conversions
// ---------------------------------------------------------------------------

/// The characters of a string slice, in order.
pub fn chars_of(text: &str) -> (chars: Vec<char>)
    ensures
        chars@ == text@,
{
    let mut chars: Vec<char> = Vec::new();
    for c in it: text.chars()
        invariant
            chars@ == it.seq().take(it.index() as int),
            it.seq() == text@,
    {
        chars.push(c);
    }
    chars
}

/// `String::push` appends the character to the end of the string (std's
/// documentation: "Appends the given char to the end of this String").
pub assume_specification[ String::push ](text: &mut String, ch: char)
    ensures
        final(text)@ == old(text)@.push(ch),
;

/// The string made of the given characters, in order.
pub fn string_of(chars: &[char]) -> (text: String)
    ensures
        text@ == chars@,
{
    let mut text = String::new();
    let mut i: usize = 0;
    while i < chars.len()
        invariant
            i <= chars.len(),
            text@ == chars@.take(i as int),
        decreases chars.len() - i,
    {
        text.push(chars[i]);
        i += 1;
    }
    text
}

/// Appends `piece` to `out`.
pub fn append_chars(out: &mut Vec<char>, piece: &[char])
    ensures
        final(out)@ == old(out)@ + piece@,
{
    let mut i: usize = 0;
    while i < piece.len()
        invariant
            i <= piece.len(),
            out@ == old(out)@ + piece@.take(i as int),
        decreases piece.len() - i,
    {
        out.push(piece[i]);
        i += 1;
    }
}

/// Whether two character slices hold the same characters.
pub fn same_chars(left: &[char], right: &[char]) -> (same: bool)
    ensures
        same == (left@ == right@),
{
    if left.len() != right.len() {
        return false;
    }
    let mut i: usize = 0;
    while i < left.len()
        invariant
            i <= left.len(),
            left.len() == right.len(),
            left@.take(i as int) == right@.take(i as int),
        decreases left.len() - i,
    {
        if left[i] != right[i] {
            return false;
        }
        assert(left@.take(i + 1) == left@.take(i as int).push(left@[i as int]));
        assert(right@.take(i + 1) == right@.take(i as int).push(right@[i as int]));
        i += 1;
    }
    assert(left@ == left@.take(left.len() as int));
    assert(right@ == right@.take(right.len() as int));
    true
}

/// Whether two string slices hold the same text.
pub fn same_text(left: &str, right: &str) -> (same: bool)
    ensures
        same == (left@ == right@),
{
    let a = left.as_bytes();
    let b = right.as_bytes();
    proof {
        vstd::utf8::encode_utf8_decode_utf8(left@);
        vstd::utf8::encode_utf8_decode_utf8(right@);
    }
    if a.len() != b.len() {
        return false;
    }
    let mut i: usize = 0;
    while i < a.len()
        invariant
            i <= a.len(),
            a.len() == b.len(),
            a@ == vstd::utf8::encode_utf8(left@),
            b@ == vstd::utf8::encode_utf8(right@),
            a@.take(i as int) == b@.take(i as int),
        decreases a.len() - i,
    {
        if a[i] != b[i] {
            assert(a@[i as int] != b@[i as int]);
            return false;
        }
        assert(a@.take(i + 1) == a@.take(i as int).push(a@[i as int]));
        assert(b@.take(i + 1) == b@.take(i as int).push(b@[i as int]));
        i += 1;
    }
    assert(a@ == a@.take(a.len() as int));
    assert(b@ == b@.take(b.len() as int));
    true
}

// ---------------------------------------------------------------------------
// Literal search
// ---------------------------------------------------------------------------

/// `token` stands in `text` at index `at`.
pub open spec fn occurs_at(text: Seq<char>, token: Seq<char>, at: int) -> bool {
    &&& 0 <= at
    &&& at + token.len() <= text.len()
    &&& text.subrange(at, at + token.len()) == token
}

/// The index of the leftmost occurrence of `token` in `text` that starts at
/// `from` or later.
pub open spec fn find_from(text: Seq<char>, token: Seq<char>, from: int) -> Option<int>
    decreases text.len() + 1 - from,
{
    if from < 0 || from + token.len() > text.len() {
        None
    } else if occurs_at(text, token, from) {
        Some(from)
    } else {
        find_from(text, token, from + 1)
    }
}

/// The index of the leftmost occurrence of `token` in `text`.
pub open spec fn first_occurrence(text: Seq<char>, token: Seq<char>) -> Option<int> {
    find_from(text, token, 0)
}

/// `find_from` gives the least index at or after `from` at which the token
/// stands, and `None` exactly when there is none.
pub proof fn lemma_find_from(text: Seq<char>, token: Seq<char>, from: int)
    requires
        0 <= from,
    ensures
        match find_from(text, token, from) {
            Some(at) => {
                &&& from <= at
                &&& occurs_at(text, token, at)
                &&& forall|j: int| from <= j < at ==> !occurs_at(text, token, j)
            },
            None => forall|j: int| from <= j ==> !occurs_at(text, token, j),
        },
    decreases text.len() + 1 - from,
{
    if from + token.len() > text.len() {
    } else if occurs_at(text, token, from) {
    } else {
        lemma_find_from(text, token, from + 1);
    }
}

/// Whether `token` stands in `text` at index `at`.
pub fn stands_at(text: &[char], token: &[char], at: usize) -> (stands: bool)
    ensures
        stands == occurs_at(text@, token@, at as int),
{
    if at > text.len() || token.len() > text.len() - at {
        return false;
    }
    let mut k: usize = 0;
    while k < token.len()
        invariant
            k <= token.len(),
            at + token.len() <= text.len(),
            forall|j: int| 0 <= j < k ==> text@[at + j] == token@[j],
        decreases token.len() - k,
    {
        if text[at + k] != token[k] {
            assert(text@.subrange(at as int, at + token@.len())[k as int] != token@[k as int]);
            return false;
        }
        k += 1;
    }
    assert(text@.subrange(at as int, at + token@.len()) =~= token@);
    true
}

/// The index of the leftmost occurrence of `token` in `text`.
pub fn find_first(text: &[char], token: &[char]) -> (found: Option<usize>)
    ensures
        match found {
            Some(at) => first_occurrence(text@, token@) == Some(at as int),
            None => first_occurrence(text@, token@) is None,
        },
{
    if token.len() > text.len() {
        return None;
    }
    let last: usize = text.len() - token.len();
    let mut at: usize = 0;
    loop
        invariant
            at <= last,
            last == text@.len() - token@.len(),
            first_occurrence(text@, token@) == find_from(text@, token@, at as int),
        decreases last - at,
    {
        if stands_at(text, token, at) {
            return Some(at);
        }
        if at == last {
            assert(find_from(text@, token@, at + 1) is None);
            return None;
        }
        at += 1;
    }
}

/// The number of occurrences of `token` in `text` that do not overlap, found
/// from the left: each search starts where the occurrence before it ended.
/// The empty token stands before every character and at the end.
pub open spec fn count_occurrences(text: Seq<char>, token: Seq<char>) -> nat
    decreases text.len(),
    via count_occurrences_decreases
{
    if token.len() == 0 {
        text.len() + 1
    } else {
        match first_occurrence(text, token) {
            Some(at) => 1 + count_occurrences(text.skip(at + token.len()), token),
            None => 0,
        }
    }
}

#[via_fn]
proof fn count_occurrences_decreases(text: Seq<char>, token: Seq<char>) {
    lemma_find_from(text, token, 0);
}

/// Occurrences that do not overlap need room: a token of at least one
/// character occurs at most as often as the text has characters.
pub proof fn lemma_count_bounded(text: Seq<char>, token: Seq<char>)
    requires
        token.len() > 0,
    ensures
        count_occurrences(text, token) <= text.len(),
    decreases text.len(),
{
    lemma_find_from(text, token, 0);
    match first_occurrence(text, token) {
        Some(at) => {
            lemma_count_bounded(text.skip(at + token.len()), token);
        },
        None => {},
    }
}

/// The number of occurrences of `token` in `text` that do not overlap.
pub fn count_matches(text: &[char], token: &[char]) -> (count: usize)
    requires
        count_occurrences(text@, token@) <= usize::MAX,
    ensures
        count == count_occurrences(text@, token@),
{
    if token.len() == 0 {
        return text.len() + 1;
    }
    let mut count: usize = 0;
    let mut pos: usize = 0;
    assert(text@.skip(0) =~= text@);
    loop
        invariant
            token@.len() > 0,
            pos <= text.len(),
            count <= pos,
            count_occurrences(text@, token@) == count + count_occurrences(
                text@.skip(pos as int),
                token@,
            ),
        decreases text.len() - pos,
    {
        let rest = slice_subrange(text, pos, text.len());
        proof {
            lemma_find_from(rest@, token@, 0);
        }
        match find_first(rest, token) {
            None => {
                return count;
            },
            Some(at) => {
                assert(text@.skip(pos as int).skip(at + token@.len()) =~= text@.skip(
                    pos + at + token@.len(),
                ));
                count += 1;
                pos = pos + at + token.len();
            },
        }
    }
}

/// `text` with its leftmost occurrence of `token` replaced by `replacement`;
/// `text` itself where the token does not occur.
pub open spec fn replace_first(text: Seq<char>, token: Seq<char>, replacement: Seq<char>) -> Seq<
    char,
> {
    match first_occurrence(text, token) {
        Some(at) => text.take(at) + replacement + text.skip(at + token.len()),
        None => text,
    }
}

/// `text` with its leftmost occurrence of `token` replaced by `replacement`.
pub fn replace_leftmost(text: &[char], token: &[char], replacement: &[char]) -> (out: Vec<char>)
    ensures
        out@ == replace_first(text@, token@, replacement@),
{
    let mut out: Vec<char> = Vec::new();
    match find_first(text, token) {
        None => {
            append_chars(&mut out, text);
            assert(out@ =~= text@);
        },
        Some(at) => {
            proof {
                lemma_find_from(text@, token@, 0);
            }
            assert(at + token.len() <= text.len());
            append_chars(&mut out, slice_subrange(text, 0, at));
            append_chars(&mut out, replacement);
            append_chars(&mut out, slice_subrange(text, at + token.len(), text.len()));
        },
    }
    out
}

// ---------------------------------------------------------------------------
// Decimal numerals
// ---------------------------------------------------------------------------

/// The character of a decimal digit.
pub open spec fn digit(d: nat) -> char {
    if d == 0 {
        '0'
    } else if d == 1 {
        '1'
    } else if d == 2 {
        '2'
    } else if d == 3 {
        '3'
    } else if d == 4 {
        '4'
    } else if d == 5 {
        '5'
    } else if d == 6 {
        '6'
    } else if d == 7 {
        '7'
    } else if d == 8 {
        '8'
    } else {
        '9'
    }
}

/// The decimal numeral of `n`, without leading zeros.
pub open spec fn decimal(n: nat) -> Seq<char>
    decreases n,
{
    if n < 10 {
        seq![digit(n)]
    } else {
        decimal(n / 10).push(digit(n % 10))
    }
}

/// A numeral has at least one digit.
pub proof fn lemma_decimal_nonempty(n: nat)
    ensures
        decimal(n).len() >= 1,
    decreases n,
{
    if n >= 10 {
        lemma_decimal_nonempty(n / 10);
    }
}

/// Different digits have different characters.
pub proof fn lemma_digit_injective(x: nat, y: nat)
    requires
        x < 10,
        y < 10,
        digit(x) == digit(y),
    ensures
        x == y,
{
}

/// Different numbers have different numerals.
pub proof fn lemma_decimal_injective(a: nat, b: nat)
    requires
        decimal(a) == decimal(b),
    ensures
        a == b,
    decreases a,
{
    if a < 10 && b < 10 {
        assert(decimal(a)[0] == digit(a));
        assert(decimal(b)[0] == digit(b));
        lemma_digit_injective(a, b);
    } else if a < 10 {
        lemma_decimal_nonempty(b / 10);
        assert(decimal(b).len() >= 2);
        assert(decimal(a).len() == 1);
    } else if b < 10 {
        lemma_decimal_nonempty(a / 10);
        assert(decimal(a).len() >= 2);
        assert(decimal(b).len() == 1);
    } else {
        let x = decimal(a / 10);
        let y = decimal(b / 10);
        assert(x.push(digit(a % 10)).drop_last() =~= x);
        assert(y.push(digit(b % 10)).drop_last() =~= y);
        assert(x.push(digit(a % 10)).last() == digit(a % 10));
        assert(y.push(digit(b % 10)).last() == digit(b % 10));
        assert(x == y);
        lemma_digit_injective(a % 10, b % 10);
        lemma_decimal_injective(a / 10, b / 10);
    }
}

fn digit_char(d: u128) -> (c: char)
    requires
        d < 10,
    ensures
        c == digit(d as nat),
{
    if d == 0 {
        '0'
    } else if d == 1 {
        '1'
    } else if d == 2 {
        '2'
    } else if d == 3 {
        '3'
    } else if d == 4 {
        '4'
    } else if d == 5 {
        '5'
    } else if d == 6 {
        '6'
    } else if d == 7 {
        '7'
    } else if d == 8 {
        '8'
    } else {
        '9'
    }
}

/// The decimal numeral of `n`.
pub fn decimal_digits(n: u128) -> (digits: Vec<char>)
    ensures
        digits@ == decimal(n as nat),
    decreases n,
{
    if n < 10 {
        let mut digits: Vec<char> = Vec::new();
        digits.push(digit_char(n));
        assert(digits@ =~= seq![digit(n as nat)]);
        digits
    } else {
        let mut digits = decimal_digits(n / 10);
        digits.push(digit_char(n % 10));
        digits
    }
}

// ---------------------------------------------------------------------------
// Lexicographic order
// ---------------------------------------------------------------------------

/// `left` comes strictly before `right` in the lexicographic order of their
/// characters' code points: the order in which strings sort.
pub open spec fn precedes(left: Seq<char>, right: Seq<char>) -> bool
    decreases left.len(),
{
    if right.len() == 0 {
        false
    } else if left.len() == 0 {
        true
    } else if left[0] != right[0] {
        left[0] < right[0]
    } else {
        precedes(left.skip(1), right.skip(1))
    }
}

/// No sequence comes before itself.
pub proof fn lemma_precedes_irreflexive(a: Seq<char>)
    ensures
        !precedes(a, a),
    decreases a.len(),
{
    if a.len() > 0 {
        lemma_precedes_irreflexive(a.skip(1));
    }
}

/// The order is transitive.
pub proof fn lemma_precedes_transitive(a: Seq<char>, b: Seq<char>, c: Seq<char>)
    requires
        precedes(a, b),
        precedes(b, c),
    ensures
        precedes(a, c),
    decreases a.len(),
{
    if a.len() > 0 && b.len() > 0 && c.len() > 0 {
        if a[0] == b[0] && b[0] == c[0] {
            lemma_precedes_transitive(a.skip(1), b.skip(1), c.skip(1));
        }
    }
}

/// Of two different sequences one comes before the other.
pub proof fn lemma_precedes_total(a: Seq<char>, b: Seq<char>)
    ensures
        a == b || precedes(a, b) || precedes(b, a),
    decreases a.len(),
{
    if a.len() == 0 || b.len() == 0 {
        if a.len() == 0 && b.len() == 0 {
            assert(a =~= b);
        }
    } else if a[0] == b[0] {
        lemma_precedes_total(a.skip(1), b.skip(1));
        if a.skip(1) == b.skip(1) {
            assert(a =~= seq![a[0]] + a.skip(1));
            assert(b =~= seq![b[0]] + b.skip(1));
        }
    }
}

/// Whether `left` comes strictly before `right` in the lexicographic order.
pub fn comes_before(left: &[char], right: &[char]) -> (before: bool)
    ensures
        before == precedes(left@, right@),
{
    let mut i: usize = 0;
    assert(left@.skip(0) =~= left@);
    assert(right@.skip(0) =~= right@);
    loop
        invariant
            i <= left.len(),
            i <= right.len(),
            precedes(left@, right@) == precedes(left@.skip(i as int), right@.skip(i as int)),
        decreases left.len() - i,
    {
        if i == right.len() {
            return false;
        }
        if i == left.len() {
            return true;
        }
        if left[i] != right[i] {
            return left[i] < right[i];
        }
        assert(left@.skip(i as int).skip(1) =~= left@.skip(i + 1));
        assert(right@.skip(i as int).skip(1) =~= right@.skip(i + 1));
        i += 1;
    }
}

} // verus!
