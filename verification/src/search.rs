//! Searching and replacing in sequences of characters.

use crate::text::{char_lower, lower, lower_all, push_all};
use vstd::prelude::*;
use vstd::slice::slice_subrange;

verus! {

/// Two texts that differ at most in the case of ASCII letters.
pub open spec fn same_ignoring_case(a: Seq<char>, b: Seq<char>) -> bool {
    lower_all(a) == lower_all(b)
}

/// The position of the first occurrence, the case of ASCII letters set aside.
pub open spec fn find_ignoring_case(s: Seq<char>, needle: Seq<char>) -> Option<nat>
    decreases s.len(),
{
    if needle.len() > s.len() {
        None
    } else if same_ignoring_case(s.take(needle.len() as int), needle) {
        Some(0)
    } else if s.len() == 0 {
        None
    } else {
        match find_ignoring_case(s.drop_first(), needle) {
            Some(i) => Some(i + 1),
            None => None,
        }
    }
}

/// An occurrence lies within the text.
pub proof fn lemma_find_within(s: Seq<char>, needle: Seq<char>)
    ensures
        find_ignoring_case(s, needle) matches Some(i) ==> i + needle.len() <= s.len(),
    decreases s.len(),
{
    if needle.len() <= s.len() && s.len() > 0 {
        lemma_find_within(s.drop_first(), needle);
    }
}

/// Replaces the occurrences of a non-empty pattern, scanning from the left and
/// going on behind each occurrence that was replaced.
pub open spec fn replace_all(s: Seq<char>, pattern: Seq<char>, to: Seq<char>) -> Seq<char>
    decreases s.len(),
{
    if s.len() == 0 {
        seq![]
    } else if pattern.len() > 0 && pattern.is_prefix_of(s) {
        to + replace_all(s.skip(pattern.len() as int), pattern, to)
    } else {
        seq![s[0]] + replace_all(s.drop_first(), pattern, to)
    }
}

/// The pattern occurs somewhere in the text.
pub open spec fn occurs(s: Seq<char>, pattern: Seq<char>) -> bool {
    exists|i: int|
        0 <= i <= s.len() - pattern.len() && #[trigger] s.subrange(i, i + pattern.len()) == pattern
}

/// Tests whether the text begins with the pattern.
pub fn begins_with(s: &[char], pattern: &[char]) -> (b: bool)
    ensures
        b == pattern@.is_prefix_of(s@),
{
    if pattern.len() > s.len() {
        return false;
    }
    let mut i: usize = 0;
    while i < pattern.len()
        invariant
            i <= pattern.len() <= s.len(),
            forall|j: int| 0 <= j < i ==> s@[j] == pattern@[j],
        decreases pattern.len() - i,
    {
        if s[i] != pattern[i] {
            assert(s@.subrange(0, pattern@.len() as int)[i as int] != pattern@[i as int]);
            return false;
        }
        i += 1;
    }
    assert(pattern@ == s@.subrange(0, pattern@.len() as int));
    true
}

/// Tests whether the text begins with the needle, ignoring ASCII case.
pub fn begins_with_ignoring_case(s: &[char], needle: &[char]) -> (b: bool)
    ensures
        b == (needle@.len() <= s@.len() && same_ignoring_case(
            s@.take(needle@.len() as int),
            needle@,
        )),
{
    if needle.len() > s.len() {
        return false;
    }
    let ghost head = s@.take(needle@.len() as int);
    let mut i: usize = 0;
    while i < needle.len()
        invariant
            i <= needle.len() <= s.len(),
            head == s@.take(needle@.len() as int),
            forall|j: int| 0 <= j < i ==> lower(s@[j]) == lower(needle@[j]),
        decreases needle.len() - i,
    {
        if char_lower(s[i]) != char_lower(needle[i]) {
            assert(lower_all(head)[i as int] != lower_all(needle@)[i as int]);
            return false;
        }
        i += 1;
    }
    assert(lower_all(head) == lower_all(needle@));
    true
}

/// Finds the first occurrence of the needle, ignoring ASCII case.
pub fn find_ascii_case_insensitive(haystack: &[char], needle: &[char]) -> (r: Option<usize>)
    ensures
        match r {
            Some(i) => find_ignoring_case(haystack@, needle@) == Some(i as nat) && i + needle@.len()
                <= haystack@.len(),
            None => find_ignoring_case(haystack@, needle@) is None,
        },
{
    let mut i: usize = 0;
    assert(haystack@.skip(0) == haystack@);
    loop
        invariant
            i <= haystack.len(),
            find_ignoring_case(haystack@, needle@) == (match find_ignoring_case(
                haystack@.skip(i as int),
                needle@,
            ) {
                Some(k) => Some(k + i as nat),
                None => None,
            }),
        decreases haystack.len() - i,
    {
        let rest = slice_subrange(haystack, i, haystack.len());
        assert(rest@ == haystack@.skip(i as int));
        if needle.len() > rest.len() {
            return None;
        }
        if begins_with_ignoring_case(rest, needle) {
            return Some(i);
        }
        if rest.len() == 0 {
            return None;
        }
        assert(rest@.drop_first() == haystack@.skip(i + 1));
        i += 1;
    }
}

/// Tests whether the pattern occurs in the text.
pub fn contains_text(s: &[char], pattern: &[char]) -> (b: bool)
    ensures
        b == occurs(s@, pattern@),
{
    if pattern.len() > s.len() {
        return false;
    }
    let mut i: usize = 0;
    while i <= s.len() - pattern.len()
        invariant
            pattern.len() <= s.len(),
            i <= s.len() - pattern.len() + 1,
            forall|j: int| 0 <= j < i ==> #[trigger] s@.subrange(j, j + pattern@.len()) != pattern@,
        decreases s.len() - pattern.len() + 1 - i,
    {
        let rest = slice_subrange(s, i, s.len());
        assert(rest@.subrange(0, pattern@.len() as int) == s@.subrange(
            i as int,
            i + pattern@.len(),
        ));
        if begins_with(rest, pattern) {
            return true;
        }
        i += 1;
    }
    false
}

/// Replaces every occurrence of a non-empty pattern.
pub fn replace_text(s: &[char], pattern: &[char], to: &[char]) -> (r: Vec<char>)
    ensures
        r@ == replace_all(s@, pattern@, to@),
{
    let mut out: Vec<char> = Vec::new();
    let mut i: usize = 0;
    assert(s@.skip(0) == s@);
    while i < s.len()
        invariant
            i <= s.len(),
            out@ + replace_all(s@.skip(i as int), pattern@, to@) == replace_all(s@, pattern@, to@),
        decreases s.len() - i,
    {
        let rest = slice_subrange(s, i, s.len());
        assert(rest@ == s@.skip(i as int));
        let ghost before = out@;
        if pattern.len() > 0 && begins_with(rest, pattern) {
            push_all(&mut out, to);
            assert(rest@.skip(pattern@.len() as int) == s@.skip(i + pattern@.len()));
            assert(out@ + replace_all(s@.skip(i + pattern@.len()), pattern@, to@) == before + (to@
                + replace_all(rest@.skip(pattern@.len() as int), pattern@, to@)));
            i = i + pattern.len();
        } else {
            out.push(s[i]);
            assert(rest@.drop_first() == s@.skip(i + 1));
            assert(out@ + replace_all(s@.skip(i + 1), pattern@, to@) == before + (seq![rest@[0]]
                + replace_all(rest@.drop_first(), pattern@, to@)));
            i += 1;
        }
    }
    assert(replace_all(s@.skip(i as int), pattern@, to@) == Seq::<char>::empty());
    out
}

} // verus!
