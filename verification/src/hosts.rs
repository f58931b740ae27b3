//! Recognition of links in chat messages and their spoken form.

use crate::search::{begins_with, contains_text, occurs, replace_all, replace_text};
use crate::text::{
    after_last, before_first, char_is_ascii_alnum, char_is_ascii_letter, char_lower, chars_of,
    is_ascii_alnum, is_ascii_letter, join, join_texts, lower, lower_all, pieces, push_all,
    split_at_class, split_words, text_after_last, text_before_first, texts, trim, trimmed, words,
    CharClass,
};
use vstd::prelude::*;
use vstd::slice::slice_subrange;

verus! {

/// A label of a host name: ASCII letters, digits and inner hyphens.
pub open spec fn valid_label(label: Seq<char>) -> bool {
    &&& label.len() > 0
    &&& label[0] != '-'
    &&& label.last() != '-'
    &&& forall|i: int| 0 <= i < label.len() ==> is_ascii_alnum(#[trigger] label[i]) || label[i] == '-'
}

/// Some character of the text is an ASCII letter.
pub open spec fn has_letter(s: Seq<char>) -> bool {
    exists|i: int| 0 <= i < s.len() && is_ascii_letter(#[trigger] s[i])
}

/// Some character of the text is an ASCII letter or digit.
pub open spec fn has_alnum(s: Seq<char>) -> bool {
    exists|i: int| 0 <= i < s.len() && is_ascii_alnum(#[trigger] s[i])
}

/// A host name: two or more valid labels between dots, with a letter in the last.
pub open spec fn valid_hostname(host: Seq<char>) -> bool {
    let labels = pieces(host, CharClass::Only('.'));
    &&& labels.len() > 1
    &&& has_letter(labels.last())
    &&& forall|i: int| 0 <= i < labels.len() ==> valid_label(#[trigger] labels[i])
}

/// The host part of `user@host:port/path?query#fragment`.
pub open spec fn authority_host(s: Seq<char>) -> Seq<char> {
    let authority = before_first(s, CharClass::AuthorityEnd);
    before_first(after_last(authority, CharClass::Only('@')), CharClass::Only(':'))
}

/// The host in lower case, without surrounding white space and dots and without
/// a leading `www.`, provided that a valid host name is left.
pub open spec fn normalized_host(host: Seq<char>) -> Option<Seq<char>> {
    let bare = trim(trim(host, CharClass::Space), CharClass::Only('.'));
    let named = lower_all(
        if "www."@.is_prefix_of(bare) {
            bare.skip(4)
        } else {
            bare
        },
    );
    if valid_hostname(named) {
        Some(named)
    } else {
        None
    }
}

/// What follows the scheme of a web address. The scheme is all in lower case or
/// all in upper case.
pub open spec fn behind_scheme(url: Seq<char>) -> Option<Seq<char>> {
    if "http://"@.is_prefix_of(url) || "HTTP://"@.is_prefix_of(url) {
        Some(url.skip(7))
    } else if "https://"@.is_prefix_of(url) || "HTTPS://"@.is_prefix_of(url) {
        Some(url.skip(8))
    } else {
        None
    }
}

/// The host that a web address names.
pub open spec fn host_of_url(url: Seq<char>) -> Option<Seq<char>> {
    match behind_scheme(url) {
        Some(rest) => normalized_host(authority_host(rest)),
        None => None,
    }
}

/// The host that a word names, written as a web address or as a bare host.
pub open spec fn host_of_word(word: Seq<char>) -> Option<Seq<char>> {
    let l = lower_all(word);
    if "http://"@.is_prefix_of(l) || "https://"@.is_prefix_of(l) {
        host_of_url(word)
    } else if "www."@.is_prefix_of(l) {
        host_of_url("https://"@ + word)
    } else if occurs(word, "://"@) {
        None
    } else {
        normalized_host(authority_host(word))
    }
}

/// The text with each run of white space reduced to one space, and none at
/// either end.
pub open spec fn collapsed(s: Seq<char>) -> Seq<char> {
    join(words(s), " "@)
}

/// A label with its hyphens spelled out.
pub open spec fn spoken_label(label: Seq<char>) -> Seq<char> {
    replace_all(label, "-"@, " dash "@)
}

/// A host name with its dots and hyphens spelled out.
pub open spec fn spoken_host(host: Seq<char>) -> Seq<char> {
    collapsed(
        join(
            pieces(host, CharClass::Only('.')).map_values(|l: Seq<char>| spoken_label(l)),
            " dot "@,
        ),
    )
}

/// Tests whether a label is valid.
pub fn is_valid_host_label(label: &[char]) -> (b: bool)
    ensures
        b == valid_label(label@),
{
    if label.len() == 0 || label[0] == '-' || label[label.len() - 1] == '-' {
        return false;
    }
    let mut i: usize = 0;
    while i < label.len()
        invariant
            i <= label.len(),
            forall|j: int| 0 <= j < i ==> is_ascii_alnum(#[trigger] label@[j]) || label@[j] == '-',
        decreases label.len() - i,
    {
        if !(char_is_ascii_alnum(label[i]) || label[i] == '-') {
            return false;
        }
        i += 1;
    }
    true
}

fn contains_letter(s: &[char]) -> (b: bool)
    ensures
        b == has_letter(s@),
{
    let mut i: usize = 0;
    while i < s.len()
        invariant
            i <= s.len(),
            forall|j: int| 0 <= j < i ==> !is_ascii_letter(#[trigger] s@[j]),
        decreases s.len() - i,
    {
        if char_is_ascii_letter(s[i]) {
            return true;
        }
        i += 1;
    }
    false
}

/// Tests whether a word holds anything that is read aloud.
pub fn token_has_spoken_content(token: &[char]) -> (b: bool)
    ensures
        b == has_alnum(token@),
{
    let mut i: usize = 0;
    while i < token.len()
        invariant
            i <= token.len(),
            forall|j: int| 0 <= j < i ==> !is_ascii_alnum(#[trigger] token@[j]),
        decreases token.len() - i,
    {
        if char_is_ascii_alnum(token[i]) {
            return true;
        }
        i += 1;
    }
    false
}

/// Tests whether a text is a host name.
pub fn is_valid_hostname(host: &[char]) -> (b: bool)
    ensures
        b == valid_hostname(host@),
{
    let labels = split_at_class(host, CharClass::Only('.'));
    let ghost all = pieces(host@, CharClass::Only('.'));
    assert(all.len() == labels.len());
    if labels.len() <= 1 {
        return false;
    }
    let last: usize = labels.len() - 1;
    assert(all.last() == labels@[last as int]@);
    if !contains_letter(labels[last].as_slice()) {
        return false;
    }
    let mut i: usize = 0;
    while i < labels.len()
        invariant
            i <= labels.len(),
            all == texts(labels@),
            forall|j: int| 0 <= j < i ==> valid_label(#[trigger] all[j]),
            all == pieces(host@, CharClass::Only('.')),
        decreases labels.len() - i,
    {
        assert(all[i as int] == labels@[i as int]@);
        if !is_valid_host_label(labels[i].as_slice()) {
            return false;
        }
        i += 1;
    }
    true
}

fn lower_text(s: &[char]) -> (r: Vec<char>)
    ensures
        r@ == lower_all(s@),
{
    let mut out: Vec<char> = Vec::new();
    let mut i: usize = 0;
    while i < s.len()
        invariant
            i <= s.len(),
            out@ == lower_all(s@.take(i as int)),
        decreases s.len() - i,
    {
        out.push(char_lower(s[i]));
        assert(lower_all(s@.take(i + 1)) == lower_all(s@.take(i as int)).push(lower(s@[i as int])));
        i += 1;
    }
    assert(s@.take(s.len() as int) == s@);
    out
}

fn begins_with_literal(s: &[char], pattern: &str) -> (b: bool)
    ensures
        b == pattern@.is_prefix_of(s@),
{
    let p = chars_of(pattern);
    begins_with(s, p.as_slice())
}

fn host_within(s: &[char]) -> (r: &[char])
    ensures
        r@ == authority_host(s@),
{
    let authority = text_before_first(s, CharClass::AuthorityEnd);
    text_before_first(text_after_last(authority, CharClass::Only('@')), CharClass::Only(':'))
}

/// Normalizes a host.
pub fn normalize_host_for_speech(host: &[char]) -> (r: Option<Vec<char>>)
    ensures
        match r {
            Some(h) => normalized_host(host@) == Some(h@),
            None => normalized_host(host@) is None,
        },
{
    proof {
        reveal_strlit("www.");
    }
    let bare = trimmed(trimmed(host, CharClass::Space), CharClass::Only('.'));
    let named = if begins_with_literal(bare, "www.") {
        lower_text(slice_subrange(bare, 4, bare.len()))
    } else {
        lower_text(bare)
    };
    if is_valid_hostname(named.as_slice()) {
        Some(named)
    } else {
        None
    }
}

/// Reads the host of a web address.
pub fn parse_host_from_url(url: &[char]) -> (r: Option<Vec<char>>)
    ensures
        match r {
            Some(h) => host_of_url(url@) == Some(h@),
            None => host_of_url(url@) is None,
        },
{
    proof {
        reveal_strlit("http://");
        reveal_strlit("HTTP://");
        reveal_strlit("https://");
        reveal_strlit("HTTPS://");
    }
    let skipped: usize = if begins_with_literal(url, "http://") || begins_with_literal(
        url,
        "HTTP://",
    ) {
        7
    } else if begins_with_literal(url, "https://") || begins_with_literal(url, "HTTPS://") {
        8
    } else {
        return None;
    };
    normalize_host_for_speech(host_within(slice_subrange(url, skipped, url.len())))
}

/// Reads the host of a word that is no web address.
pub fn parse_host_from_bare_token(token: &[char]) -> (r: Option<Vec<char>>)
    ensures
        match r {
            Some(h) => !occurs(token@, "://"@) && normalized_host(authority_host(token@)) == Some(
                h@,
            ),
            None => occurs(token@, "://"@) || normalized_host(authority_host(token@)) is None,
        },
{
    let mark = chars_of("://");
    if contains_text(token, mark.as_slice()) {
        return None;
    }
    normalize_host_for_speech(host_within(token))
}

/// Reads the host that a word names.
pub fn extract_url_host(token: &[char]) -> (r: Option<Vec<char>>)
    ensures
        match r {
            Some(h) => host_of_word(token@) == Some(h@),
            None => host_of_word(token@) is None,
        },
{
    let l = lower_text(token);
    if begins_with_literal(l.as_slice(), "http://") || begins_with_literal(
        l.as_slice(),
        "https://",
    ) {
        return parse_host_from_url(token);
    }
    if begins_with_literal(l.as_slice(), "www.") {
        let mut candidate = chars_of("https://");
        push_all(&mut candidate, token);
        return parse_host_from_url(candidate.as_slice());
    }
    parse_host_from_bare_token(token)
}

/// Reduces the white space of a text.
pub fn collapse_whitespace(input: &[char]) -> (r: Vec<char>)
    ensures
        r@ == collapsed(input@),
{
    let w = split_words(input);
    join_texts(&w, " ")
}

/// Spells out a host name.
pub fn hostname_for_speech(host: &[char]) -> (r: Vec<char>)
    ensures
        r@ == spoken_host(host@),
{
    let hyphen = chars_of("-");
    let dash = chars_of(" dash ");
    let labels = split_at_class(host, CharClass::Only('.'));
    let ghost all = pieces(host@, CharClass::Only('.'));
    let mut spoken: Vec<Vec<char>> = Vec::new();
    let mut i: usize = 0;
    while i < labels.len()
        invariant
            i <= labels.len(),
            hyphen@ == "-"@,
            dash@ == " dash "@,
            all == texts(labels@),
            texts(spoken@) == all.take(i as int).map_values(|l: Seq<char>| spoken_label(l)),
        decreases labels.len() - i,
    {
        let ghost before = texts(spoken@);
        assert(all[i as int] == labels@[i as int]@);
        spoken.push(replace_text(labels[i].as_slice(), hyphen.as_slice(), dash.as_slice()));
        assert(texts(spoken@) == before.push(spoken_label(all[i as int])));
        assert(texts(spoken@) == all.take(i + 1).map_values(|l: Seq<char>| spoken_label(l)));
        i += 1;
    }
    assert(all.take(labels.len() as int) == all);
    let joined = join_texts(&spoken, " dot ");
    collapse_whitespace(joined.as_slice())
}

} // verus!
