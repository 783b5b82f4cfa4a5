//! Where one text occurs inside another.

use crate::text::{decimal, Text};
use vstd::prelude::*;

verus! {

/// Whether `needle` stands in `hay` at offset `at`.
pub open spec fn occurs_at(hay: Text, needle: Text, at: int) -> bool {
    &&& 0 <= at
    &&& at + needle.len() <= hay.len()
    &&& hay.subrange(at, at + needle.len()) == needle
}

/// Whether `needle` stands somewhere in `hay`.
pub open spec fn contains(hay: Text, needle: Text) -> bool {
    exists|at: int| occurs_at(hay, needle, at)
}

/// Whether the character `c` is nowhere in `text`.
pub open spec fn lacks(text: Text, c: char) -> bool {
    forall|i: int| 0 <= i < text.len() ==> text[i] != c
}

/// Whether no occurrence of `needle` can begin inside `left` and run past
/// its end: `left` is empty, or its last character is none of the
/// characters of `needle` before the last.
pub open spec fn closes(left: Text, needle: Text) -> bool {
    left.len() == 0 || forall|k: int| 0 <= k < needle.len() - 1 ==> needle[k] != left.last()
}

/// Whether no occurrence of `needle` can begin before `right` and run into
/// it: `right` is empty, or its first character is none of the characters
/// of `needle` after the first.
pub open spec fn opens(right: Text, needle: Text) -> bool {
    right.len() == 0 || forall|k: int| 1 <= k < needle.len() ==> needle[k] != right[0]
}

/// An occurrence matches character by character.
pub proof fn lemma_occurrence_char(hay: Text, needle: Text, at: int, k: int)
    requires
        occurs_at(hay, needle, at),
        0 <= k < needle.len(),
    ensures
        hay[at + k] == needle[k],
{
    assert(hay.subrange(at, at + needle.len())[k] == hay[at + k]);
}

/// An occurrence in a text is an occurrence, at the same offset, in the text
/// with more behind it.
pub proof fn lemma_occurs_left(left: Text, right: Text, needle: Text, at: int)
    requires
        occurs_at(left, needle, at),
    ensures
        occurs_at(left + right, needle, at),
{
    assert((left + right).subrange(at, at + needle.len()) =~= left.subrange(
        at,
        at + needle.len(),
    ));
}

/// An occurrence in a text is an occurrence in the text with more before
/// it, at an offset greater by the length of what was put before.
pub proof fn lemma_occurs_right(left: Text, right: Text, needle: Text, at: int)
    requires
        occurs_at(right, needle, at),
    ensures
        occurs_at(left + right, needle, left.len() + at),
{
    assert((left + right).subrange(left.len() + at, left.len() + at + needle.len())
        =~= right.subrange(at, at + needle.len()));
}

/// Where the boundary between two texts cannot be crossed, the occurrences
/// in their concatenation are those in the left text and, moved by its
/// length, those in the right one.
pub proof fn lemma_occurs_in_concat(left: Text, right: Text, needle: Text, at: int)
    requires
        needle.len() > 0,
        closes(left, needle) || opens(right, needle),
    ensures
        occurs_at(left + right, needle, at) <==> occurs_at(left, needle, at) || occurs_at(
            right,
            needle,
            at - left.len(),
        ),
{
    let whole = left + right;
    let n = needle.len() as int;
    if occurs_at(left, needle, at) {
        lemma_occurs_left(left, right, needle, at);
    }
    if occurs_at(right, needle, at - left.len()) {
        lemma_occurs_right(left, right, needle, at - left.len());
    }
    if occurs_at(whole, needle, at) {
        if at + n <= left.len() {
            assert(left.subrange(at, at + n) =~= whole.subrange(at, at + n));
        } else if at >= left.len() {
            assert(right.subrange(at - left.len(), at - left.len() + n) =~= whole.subrange(
                at,
                at + n,
            ));
        } else {
            lemma_occurrence_char(whole, needle, at, left.len() - 1 - at);
            lemma_occurrence_char(whole, needle, at, left.len() - at);
            assert(whole[left.len() - 1] == left.last());
            assert(whole[left.len() as int] == right[0]);
            assert(false);
        }
    }
}

/// Two texts without `needle`, joined at a boundary that cannot be crossed,
/// make a text without `needle`.
pub proof fn lemma_free_concat(left: Text, right: Text, needle: Text)
    requires
        needle.len() > 0,
        !contains(left, needle),
        !contains(right, needle),
        closes(left, needle) || opens(right, needle),
    ensures
        !contains(left + right, needle),
{
    assert forall|at: int| !occurs_at(left + right, needle, at) by {
        lemma_occurs_in_concat(left, right, needle, at);
    }
}

/// A text that lacks the first character of `needle` holds no `needle`.
pub proof fn lemma_free_without_first(text: Text, needle: Text)
    requires
        needle.len() > 0,
        lacks(text, needle[0]),
    ensures
        !contains(text, needle),
{
    assert forall|at: int| !occurs_at(text, needle, at) by {
        if occurs_at(text, needle, at) {
            lemma_occurrence_char(text, needle, at, 0);
        }
    }
}

/// A text shorter than `needle` holds no `needle`.
pub proof fn lemma_free_when_shorter(text: Text, needle: Text)
    requires
        text.len() < needle.len(),
    ensures
        !contains(text, needle),
{
}

/// Texts that lack a character make, joined, a text that lacks it.
pub proof fn lemma_lacks_concat(left: Text, right: Text, c: char)
    requires
        lacks(left, c),
        lacks(right, c),
    ensures
        lacks(left + right, c),
{
}

/// Whether `c` is one of the ten digits.
pub open spec fn is_digit(c: char) -> bool {
    c == '0' || c == '1' || c == '2' || c == '3' || c == '4' || c == '5' || c == '6' || c == '7'
        || c == '8' || c == '9'
}

/// A decimal numeral is not empty and is made of digits.
pub proof fn lemma_decimal_digits(n: nat)
    ensures
        decimal(n).len() > 0,
        forall|i: int| 0 <= i < decimal(n).len() ==> is_digit(#[trigger] decimal(n)[i]),
    decreases n,
{
    if n >= 10 {
        lemma_decimal_digits(n / 10);
    }
}

/// A decimal numeral lacks every character that is no digit.
pub proof fn lemma_decimal_lacks(n: nat, c: char)
    requires
        !is_digit(c),
    ensures
        lacks(decimal(n), c),
{
    lemma_decimal_digits(n);
}

} // verus!
