//! Character-level text primitives.
//!
//! Text is processed as sequences of `char`s. Each operation is specified by a
//! short recursive function on `Seq<char>`, and the executable version is
//! proved to compute exactly that function.

use vstd::prelude::*;
use vstd::slice::slice_subrange;

verus! {

/// Appends one character to a string: `String::push` extends the text by
/// exactly that character.
pub assume_specification[ String::push ](s: &mut String, c: char)
    ensures
        final(s)@ == old(s)@.push(c),
;

/// A set of characters that can be tested at run time.
#[derive(Clone, Copy, Debug, PartialEq, Eq, Structural)]
pub enum CharClass {
    /// Unicode `White_Space`.
    Space,
    /// Unicode `White_Space`, or the `>` that closes a tag.
    AttributeEnd,
    /// Opening brackets and quotes that may precede a word.
    LeadingPunctuation,
    /// Closing brackets, quotes and sentence marks that may follow a word.
    TrailingPunctuation,
    /// The characters that end the authority part of a URL.
    AuthorityEnd,
    /// One particular character.
    Only(char),
}

/// The Unicode property `White_Space`.
pub open spec fn is_space(c: char) -> bool {
    ||| '\u{9}' <= c <= '\u{d}'
    ||| c == ' '
    ||| c == '\u{85}'
    ||| c == '\u{a0}'
    ||| c == '\u{1680}'
    ||| '\u{2000}' <= c <= '\u{200a}'
    ||| c == '\u{2028}'
    ||| c == '\u{2029}'
    ||| c == '\u{202f}'
    ||| c == '\u{205f}'
    ||| c == '\u{3000}'
}

pub open spec fn is_ascii_upper(c: char) -> bool {
    'A' <= c <= 'Z'
}

pub open spec fn is_ascii_letter(c: char) -> bool {
    is_ascii_upper(c) || 'a' <= c <= 'z'
}

pub open spec fn is_ascii_alnum(c: char) -> bool {
    is_ascii_letter(c) || '0' <= c <= '9'
}

/// The members of a class.
pub open spec fn in_class(k: CharClass, c: char) -> bool {
    match k {
        CharClass::Space => is_space(c),
        CharClass::AttributeEnd => is_space(c) || c == '>',
        CharClass::LeadingPunctuation => {
            ||| c == '(' || c == '[' || c == '{' || c == '<'
            ||| c == '"' || c == '\'' || c == '`'
        },
        CharClass::TrailingPunctuation => {
            ||| c == ')' || c == ']' || c == '}' || c == '>'
            ||| c == '.' || c == ',' || c == '!' || c == '?' || c == ';' || c == ':'
            ||| c == '"' || c == '\'' || c == '`'
        },
        CharClass::AuthorityEnd => c == '/' || c == '?' || c == '#',
        CharClass::Only(d) => c == d,
    }
}

/// Tests whether a character is Unicode white space.
pub fn char_is_space(c: char) -> (b: bool)
    ensures
        b == is_space(c),
{
    ('\u{9}' <= c && c <= '\u{d}') || c == ' ' || c == '\u{85}' || c == '\u{a0}' || c == '\u{1680}'
        || ('\u{2000}' <= c && c <= '\u{200a}') || c == '\u{2028}' || c == '\u{2029}'
        || c == '\u{202f}' || c == '\u{205f}' || c == '\u{3000}'
}

pub fn char_is_ascii_letter(c: char) -> (b: bool)
    ensures
        b == is_ascii_letter(c),
{
    ('A' <= c && c <= 'Z') || ('a' <= c && c <= 'z')
}

pub fn char_is_ascii_alnum(c: char) -> (b: bool)
    ensures
        b == is_ascii_alnum(c),
{
    char_is_ascii_letter(c) || ('0' <= c && c <= '9')
}

/// Tests whether a character belongs to a class.
pub fn class_has(k: CharClass, c: char) -> (b: bool)
    ensures
        b == in_class(k, c),
{
    match k {
        CharClass::Space => char_is_space(c),
        CharClass::AttributeEnd => char_is_space(c) || c == '>',
        CharClass::LeadingPunctuation => is_leading_punctuation(c),
        CharClass::TrailingPunctuation => is_trailing_punctuation(c),
        CharClass::AuthorityEnd => c == '/' || c == '?' || c == '#',
        CharClass::Only(d) => c == d,
    }
}

pub fn is_leading_punctuation(c: char) -> (b: bool)
    ensures
        b == in_class(CharClass::LeadingPunctuation, c),
{
    c == '(' || c == '[' || c == '{' || c == '<' || c == '"' || c == '\'' || c == '`'
}

pub fn is_trailing_punctuation(c: char) -> (b: bool)
    ensures
        b == in_class(CharClass::TrailingPunctuation, c),
{
    c == ')' || c == ']' || c == '}' || c == '>' || c == '.' || c == ',' || c == '!' || c == '?'
        || c == ';' || c == ':' || c == '"' || c == '\'' || c == '`'
}

/// The ASCII lower-case form of a character; other characters are unchanged.
pub open spec fn lower(c: char) -> char {
    if is_ascii_upper(c) {
        (c as u8 + 32) as u8 as char
    } else {
        c
    }
}

pub open spec fn lower_all(s: Seq<char>) -> Seq<char> {
    s.map_values(|c: char| lower(c))
}

pub fn char_lower(c: char) -> (r: char)
    ensures
        r == lower(c),
{
    if 'A' <= c && c <= 'Z' {
        (c as u8 + 32) as char
    } else {
        c
    }
}

/// The characters of a string.
pub fn chars_of(s: &str) -> (r: Vec<char>)
    ensures
        r@ == s@,
{
    let mut out: Vec<char> = Vec::new();
    for c in it: s.chars()
        invariant
            out@ == s@.take(it.index() as int),
            it.seq() == s@,
    {
        out.push(c);
        assert(s@.take(it.index() as int + 1) == s@.take(it.index() as int).push(c));
    }
    assert(s@.take(s@.len() as int) == s@);
    out
}

/// The string made of the given characters.
pub fn string_of(s: &[char]) -> (r: String)
    ensures
        r@ == s@,
{
    let mut out = String::new();
    let mut i: usize = 0;
    while i < s.len()
        invariant
            i <= s.len(),
            out@ == s@.take(i as int),
        decreases s.len() - i,
    {
        out.push(s[i]);
        assert(s@.take(i + 1) == s@.take(i as int).push(s@[i as int]));
        i += 1;
    }
    assert(s@.take(s.len() as int) == s@);
    out
}

/// The number of leading characters that belong to the class.
pub open spec fn span_in(s: Seq<char>, k: CharClass) -> nat
    decreases s.len(),
{
    if s.len() > 0 && in_class(k, s[0]) {
        1 + span_in(s.drop_first(), k)
    } else {
        0
    }
}

/// The number of leading characters outside the class.
pub open spec fn span_out(s: Seq<char>, k: CharClass) -> nat
    decreases s.len(),
{
    if s.len() > 0 && !in_class(k, s[0]) {
        1 + span_out(s.drop_first(), k)
    } else {
        0
    }
}

/// The number of trailing characters that belong to the class.
pub open spec fn tail_in(s: Seq<char>, k: CharClass) -> nat
    decreases s.len(),
{
    if s.len() > 0 && in_class(k, s.last()) {
        1 + tail_in(s.drop_last(), k)
    } else {
        0
    }
}

/// The number of trailing characters outside the class.
pub open spec fn tail_out(s: Seq<char>, k: CharClass) -> nat
    decreases s.len(),
{
    if s.len() > 0 && !in_class(k, s.last()) {
        1 + tail_out(s.drop_last(), k)
    } else {
        0
    }
}

/// `span_in` is the length of the longest prefix inside the class.
pub proof fn lemma_span_in(s: Seq<char>, k: CharClass)
    ensures
        span_in(s, k) <= s.len(),
        forall|j: int| 0 <= j < span_in(s, k) ==> in_class(k, #[trigger] s[j]),
        span_in(s, k) < s.len() ==> !in_class(k, s[span_in(s, k) as int]),
    decreases s.len(),
{
    if s.len() > 0 && in_class(k, s[0]) {
        let t = s.drop_first();
        lemma_span_in(t, k);
        assert forall|j: int| 0 <= j < span_in(s, k) implies in_class(k, #[trigger] s[j]) by {
            if j > 0 {
                assert(s[j] == t[j - 1]);
            }
        }
        if span_in(s, k) < s.len() {
            assert(s[span_in(s, k) as int] == t[span_in(t, k) as int]);
        }
    }
}

/// `span_out` is the length of the longest prefix outside the class.
pub proof fn lemma_span_out(s: Seq<char>, k: CharClass)
    ensures
        span_out(s, k) <= s.len(),
        forall|j: int| 0 <= j < span_out(s, k) ==> !in_class(k, #[trigger] s[j]),
        span_out(s, k) < s.len() ==> in_class(k, s[span_out(s, k) as int]),
    decreases s.len(),
{
    if s.len() > 0 && !in_class(k, s[0]) {
        let t = s.drop_first();
        lemma_span_out(t, k);
        assert forall|j: int| 0 <= j < span_out(s, k) implies !in_class(k, #[trigger] s[j]) by {
            if j > 0 {
                assert(s[j] == t[j - 1]);
            }
        }
        if span_out(s, k) < s.len() {
            assert(s[span_out(s, k) as int] == t[span_out(t, k) as int]);
        }
    }
}

/// `tail_in` is the length of the longest suffix inside the class.
pub proof fn lemma_tail_in(s: Seq<char>, k: CharClass)
    ensures
        tail_in(s, k) <= s.len(),
        forall|j: int| s.len() - tail_in(s, k) <= j < s.len() ==> in_class(k, #[trigger] s[j]),
        tail_in(s, k) < s.len() ==> !in_class(k, s[s.len() - tail_in(s, k) - 1]),
    decreases s.len(),
{
    if s.len() > 0 && in_class(k, s.last()) {
        let t = s.drop_last();
        lemma_tail_in(t, k);
        assert forall|j: int| s.len() - tail_in(s, k) <= j < s.len() implies in_class(
            k,
            #[trigger] s[j],
        ) by {
            if j < s.len() - 1 {
                assert(s[j] == t[j]);
            }
        }
        if tail_in(s, k) < s.len() {
            assert(s[s.len() - tail_in(s, k) - 1] == t[t.len() - tail_in(t, k) - 1]);
        }
    }
}

/// `tail_out` is the length of the longest suffix outside the class.
pub proof fn lemma_tail_out(s: Seq<char>, k: CharClass)
    ensures
        tail_out(s, k) <= s.len(),
        forall|j: int| s.len() - tail_out(s, k) <= j < s.len() ==> !in_class(k, #[trigger] s[j]),
        tail_out(s, k) < s.len() ==> in_class(k, s[s.len() - tail_out(s, k) - 1]),
    decreases s.len(),
{
    if s.len() > 0 && !in_class(k, s.last()) {
        let t = s.drop_last();
        lemma_tail_out(t, k);
        assert forall|j: int| s.len() - tail_out(s, k) <= j < s.len() implies !in_class(
            k,
            #[trigger] s[j],
        ) by {
            if j < s.len() - 1 {
                assert(s[j] == t[j]);
            }
        }
        if tail_out(s, k) < s.len() {
            assert(s[s.len() - tail_out(s, k) - 1] == t[t.len() - tail_out(t, k) - 1]);
        }
    }
}

/// Counts the leading characters inside the class.
pub fn count_span_in(s: &[char], k: CharClass) -> (n: usize)
    ensures
        n == span_in(s@, k),
        n <= s.len(),
{
    proof {
        lemma_span_in(s@, k);
    }
    let mut n: usize = 0;
    while n < s.len() && class_has(k, s[n])
        invariant
            n <= span_in(s@, k) <= s.len(),
            forall|j: int| 0 <= j < span_in(s@, k) ==> in_class(k, #[trigger] s@[j]),
            span_in(s@, k) < s@.len() ==> !in_class(k, s@[span_in(s@, k) as int]),
        decreases s.len() - n,
    {
        n += 1;
    }
    n
}

/// Counts the leading characters outside the class.
pub fn count_span_out(s: &[char], k: CharClass) -> (n: usize)
    ensures
        n == span_out(s@, k),
        n <= s.len(),
{
    proof {
        lemma_span_out(s@, k);
    }
    let mut n: usize = 0;
    while n < s.len() && !class_has(k, s[n])
        invariant
            n <= span_out(s@, k) <= s.len(),
            forall|j: int| 0 <= j < span_out(s@, k) ==> !in_class(k, #[trigger] s@[j]),
            span_out(s@, k) < s@.len() ==> in_class(k, s@[span_out(s@, k) as int]),
        decreases s.len() - n,
    {
        n += 1;
    }
    n
}

/// Counts the trailing characters inside the class.
pub fn count_tail_in(s: &[char], k: CharClass) -> (n: usize)
    ensures
        n == tail_in(s@, k),
        n <= s.len(),
{
    proof {
        lemma_tail_in(s@, k);
    }
    let mut n: usize = 0;
    while n < s.len() && class_has(k, s[s.len() - 1 - n])
        invariant
            n <= tail_in(s@, k) <= s.len(),
            forall|j: int| s@.len() - tail_in(s@, k) <= j < s@.len() ==> in_class(k, #[trigger] s@[j]),
            tail_in(s@, k) < s@.len() ==> !in_class(k, s@[s@.len() - tail_in(s@, k) - 1]),
        decreases s.len() - n,
    {
        n += 1;
    }
    n
}

/// Counts the trailing characters outside the class.
pub fn count_tail_out(s: &[char], k: CharClass) -> (n: usize)
    ensures
        n == tail_out(s@, k),
        n <= s.len(),
{
    proof {
        lemma_tail_out(s@, k);
    }
    let mut n: usize = 0;
    while n < s.len() && !class_has(k, s[s.len() - 1 - n])
        invariant
            n <= tail_out(s@, k) <= s.len(),
            forall|j: int| s@.len() - tail_out(s@, k) <= j < s@.len() ==> !in_class(
                k,
                #[trigger] s@[j],
            ),
            tail_out(s@, k) < s@.len() ==> in_class(k, s@[s@.len() - tail_out(s@, k) - 1]),
        decreases s.len() - n,
    {
        n += 1;
    }
    n
}

/// The text without its leading characters of the class.
pub open spec fn trim_start(s: Seq<char>, k: CharClass) -> Seq<char> {
    s.skip(span_in(s, k) as int)
}

/// The text without its leading and trailing characters of the class.
pub open spec fn trim(s: Seq<char>, k: CharClass) -> Seq<char> {
    let t = trim_start(s, k);
    t.take(t.len() - tail_in(t, k))
}

/// The text before the first character of the class, or all of it.
pub open spec fn before_first(s: Seq<char>, k: CharClass) -> Seq<char> {
    s.take(span_out(s, k) as int)
}

/// The text after the last character of the class, or all of it.
pub open spec fn after_last(s: Seq<char>, k: CharClass) -> Seq<char> {
    s.skip(s.len() - tail_out(s, k))
}

pub fn trimmed_start(s: &[char], k: CharClass) -> (r: &[char])
    ensures
        r@ == trim_start(s@, k),
{
    let n: usize = count_span_in(s, k);
    slice_subrange(s, n, s.len())
}

pub fn trimmed(s: &[char], k: CharClass) -> (r: &[char])
    ensures
        r@ == trim(s@, k),
{
    let t = trimmed_start(s, k);
    let n: usize = count_tail_in(t, k);
    slice_subrange(t, 0, t.len() - n)
}

pub fn text_before_first(s: &[char], k: CharClass) -> (r: &[char])
    ensures
        r@ == before_first(s@, k),
{
    let n: usize = count_span_out(s, k);
    slice_subrange(s, 0, n)
}

pub fn text_after_last(s: &[char], k: CharClass) -> (r: &[char])
    ensures
        r@ == after_last(s@, k),
{
    let n: usize = count_tail_out(s, k);
    slice_subrange(s, s.len() - n, s.len())
}

/// The views of a vector of texts.
pub open spec fn texts(v: Seq<Vec<char>>) -> Seq<Seq<char>> {
    v.map_values(|t: Vec<char>| t@)
}

/// The pieces between the characters of the class: one more than there are
/// such characters, some of them possibly empty.
pub open spec fn pieces(s: Seq<char>, k: CharClass) -> Seq<Seq<char>>
    decreases s.len(),
    via pieces_decreases
{
    let n = span_out(s, k);
    if n >= s.len() {
        seq![s]
    } else {
        seq![s.take(n as int)] + pieces(s.skip(n as int + 1), k)
    }
}

#[via_fn]
proof fn pieces_decreases(s: Seq<char>, k: CharClass) {
    lemma_span_out(s, k);
}

/// The white-space separated words, none of them empty.
pub open spec fn words(s: Seq<char>) -> Seq<Seq<char>>
    decreases s.len(),
    via words_decreases
{
    let t = trim_start(s, CharClass::Space);
    let n = span_out(t, CharClass::Space);
    if t.len() == 0 {
        seq![]
    } else {
        seq![t.take(n as int)] + words(t.skip(n as int))
    }
}

#[via_fn]
proof fn words_decreases(s: Seq<char>) {
    let t = trim_start(s, CharClass::Space);
    lemma_span_in(s, CharClass::Space);
    lemma_span_out(t, CharClass::Space);
    if t.len() > 0 {
        assert(t[0] == s[span_in(s, CharClass::Space) as int]);
        assert(span_out(t, CharClass::Space) > 0);
    }
}

/// The parts in order, with the separator between neighbours.
pub open spec fn join(parts: Seq<Seq<char>>, sep: Seq<char>) -> Seq<char>
    decreases parts.len(),
{
    if parts.len() == 0 {
        seq![]
    } else if parts.len() == 1 {
        parts[0]
    } else {
        join(parts.drop_last(), sep) + sep + parts.last()
    }
}

/// Copies a slice of text.
pub fn owned(s: &[char]) -> (r: Vec<char>)
    ensures
        r@ == s@,
{
    let mut out: Vec<char> = Vec::new();
    push_all(&mut out, s);
    out
}

/// Appends a slice of text.
pub fn push_all(out: &mut Vec<char>, s: &[char])
    ensures
        final(out)@ == old(out)@ + s@,
{
    let mut i: usize = 0;
    while i < s.len()
        invariant
            i <= s.len(),
            out@ == old(out)@ + s@.take(i as int),
        decreases s.len() - i,
    {
        out.push(s[i]);
        assert(s@.take(i + 1) == s@.take(i as int).push(s@[i as int]));
        i += 1;
    }
    assert(s@.take(s.len() as int) == s@);
}

/// Appends the text of a string.
pub fn push_text(out: &mut Vec<char>, s: &str)
    ensures
        final(out)@ == old(out)@ + s@,
{
    let t = chars_of(s);
    push_all(out, t.as_slice());
}

/// Splits a text at each character of the class.
pub fn split_at_class(s: &[char], k: CharClass) -> (r: Vec<Vec<char>>)
    ensures
        texts(r@) == pieces(s@, k),
{
    let mut out: Vec<Vec<char>> = Vec::new();
    let mut start: usize = 0;
    assert(s@.skip(0) == s@);
    assert(texts(out@) + pieces(s@, k) == pieces(s@, k));
    loop
        invariant
            start <= s.len(),
            texts(out@) + pieces(s@.skip(start as int), k) == pieces(s@, k),
        decreases s.len() - start,
    {
        let rest = slice_subrange(s, start, s.len());
        assert(rest@ == s@.skip(start as int));
        let n: usize = count_span_out(rest, k);
        let ghost before = texts(out@);
        out.push(owned(slice_subrange(rest, 0, n)));
        assert(texts(out@) == before.push(rest@.take(n as int)));
        if n == rest.len() {
            assert(rest@.take(n as int) == rest@);
            assert(texts(out@) == before + seq![rest@]);
            return out;
        }
        assert(rest@.skip(n + 1) == s@.skip(start + n + 1));
        assert(texts(out@) + pieces(s@.skip(start + n + 1), k) == before + (seq![
            rest@.take(n as int),
        ] + pieces(rest@.skip(n + 1), k)));
        start = start + n + 1;
    }
}

/// Splits a text into its white-space separated words.
pub fn split_words(s: &[char]) -> (r: Vec<Vec<char>>)
    ensures
        texts(r@) == words(s@),
{
    let mut out: Vec<Vec<char>> = Vec::new();
    let mut start: usize = 0;
    assert(s@.skip(0) == s@);
    assert(texts(out@) + words(s@) == words(s@));
    loop
        invariant
            start <= s.len(),
            texts(out@) + words(s@.skip(start as int)) == words(s@),
        decreases s.len() - start,
    {
        let rest = slice_subrange(s, start, s.len());
        assert(rest@ == s@.skip(start as int));
        let skipped: usize = count_span_in(rest, CharClass::Space);
        let t = slice_subrange(rest, skipped, rest.len());
        assert(t@ == trim_start(rest@, CharClass::Space));
        if t.len() == 0 {
            assert(texts(out@) + Seq::<Seq<char>>::empty() == texts(out@));
            return out;
        }
        let n: usize = count_span_out(t, CharClass::Space);
        proof {
            lemma_span_in(rest@, CharClass::Space);
            assert(t@[0] == rest@[skipped as int]);
        }
        assert(n > 0);
        let ghost before = texts(out@);
        out.push(owned(slice_subrange(t, 0, n)));
        assert(texts(out@) == before.push(t@.take(n as int)));
        assert(t@.skip(n as int) == s@.skip(start + skipped + n));
        assert(texts(out@) + words(t@.skip(n as int)) == before + (seq![t@.take(n as int)] + words(
            t@.skip(n as int),
        )));
        start = start + skipped + n;
    }
}

/// Joins texts with a separator.
pub fn join_texts(parts: &Vec<Vec<char>>, sep: &str) -> (r: Vec<char>)
    ensures
        r@ == join(texts(parts@), sep@),
{
    let mut out: Vec<char> = Vec::new();
    let mut i: usize = 0;
    assert(texts(parts@).take(0) == Seq::<Seq<char>>::empty());
    while i < parts.len()
        invariant
            i <= parts.len(),
            out@ == join(texts(parts@).take(i as int), sep@),
        decreases parts.len() - i,
    {
        let ghost all = texts(parts@);
        if i > 0 {
            push_text(&mut out, sep);
        }
        push_all(&mut out, parts[i].as_slice());
        proof {
            assert(all.take(i + 1).drop_last() == all.take(i as int));
            assert(all.take(i + 1).last() == parts@[i as int]@);
            if i == 0 {
                assert(out@ == parts@[0]@);
            }
        }
        i += 1;
    }
    assert(texts(parts@).take(parts.len() as int) == texts(parts@));
    out
}

/// The decimal digit of a number below ten.
pub open spec fn digit(n: nat) -> char {
    (48 + n) as u8 as char
}

/// A number in decimal notation.
pub open spec fn decimal(n: nat) -> Seq<char>
    decreases n,
{
    if n < 10 {
        seq![digit(n)]
    } else {
        decimal(n / 10).push(digit(n % 10))
    }
}

/// Writes a number in decimal notation.
pub fn decimal_text(n: u64) -> (r: Vec<char>)
    ensures
        r@ == decimal(n as nat),
    decreases n,
{
    let d: u8 = 48 + (n % 10) as u8;
    if n < 10 {
        let mut out: Vec<char> = Vec::new();
        out.push(d as char);
        assert(out@ == seq![digit(n as nat)]);
        out
    } else {
        let mut out: Vec<char> = decimal_text(n / 10);
        out.push(d as char);
        out
    }
}

} // verus!
