//! Comparing and searching texts, character by character.

use vstd::prelude::*;

verus! {

/// The texts of a list of strings.
pub open spec fn texts(list: Seq<String>) -> Seq<Seq<char>> {
    list.map_values(|item: String| item@)
}

/// Whether `needle` occurs in `text` at position `at`.
pub open spec fn occurs_at(text: Seq<char>, needle: Seq<char>, at: int) -> bool {
    0 <= at && at + needle.len() <= text.len() && text.subrange(at, at + needle.len()) == needle
}

/// Whether `needle` occurs anywhere in `text`.
pub open spec fn contains_text(text: Seq<char>, needle: Seq<char>) -> bool {
    exists|at: int| occurs_at(text, needle, at)
}

/// Whether `needle` stands in `text` at position `at`.
pub fn matches_at(text: &str, needle: &str, at: usize) -> (r: bool)
    requires
        at + needle@.len() <= text@.len() <= usize::MAX,
    ensures
        r == occurs_at(text@, needle@, at as int),
{
    let len: usize = needle.unicode_len();
    let ghost part = text@.subrange(at as int, at + len);
    let mut i: usize = 0;
    while i < len
        invariant
            i <= len,
            len == needle@.len(),
            at + len <= text@.len() <= usize::MAX,
            part == text@.subrange(at as int, at + len),
            forall|j: int| 0 <= j < i ==> part[j] == needle@[j],
        decreases len - i,
    {
        if text.get_char(at + i) != needle.get_char(i) {
            assert(part[i as int] != needle@[i as int]);
            return false;
        }
        i += 1;
    }
    assert(part =~= needle@);
    true
}

/// Whether the two texts are the same.
pub fn same_text(text: &str, other: &str) -> (r: bool)
    ensures
        r == (text@ == other@),
{
    if text.unicode_len() != other.unicode_len() {
        return false;
    }
    assert(text@.subrange(0, text@.len() as int) == text@);
    matches_at(text, other, 0)
}

/// Whether `needle` occurs anywhere in `text`.
pub fn contains(text: &str, needle: &str) -> (r: bool)
    ensures
        r == contains_text(text@, needle@),
{
    let len: usize = text.unicode_len();
    let needle_len: usize = needle.unicode_len();
    if needle_len > len {
        return false;
    }
    let last: usize = len - needle_len;
    let mut at: usize = 0;
    while at < last
        invariant
            len == text@.len(),
            needle_len == needle@.len(),
            last == len - needle_len,
            at <= last,
            forall|k: int| 0 <= k < at ==> !occurs_at(text@, needle@, k),
        decreases last - at,
    {
        if matches_at(text, needle, at) {
            return true;
        }
        at += 1;
    }
    matches_at(text, needle, last)
}

} // verus!
