//! Reduction of the HTML subset found in chat messages to plain text.

use crate::search::{
    find_ascii_case_insensitive, find_ignoring_case, lemma_find_within, replace_all, replace_text,
};
use crate::text::{
    before_first, chars_of, count_span_out, lemma_span_out, owned, push_all, span_out,
    text_before_first, trim_start, trimmed_start, CharClass,
};
use vstd::prelude::*;
use vstd::slice::slice_subrange;

verus! {

/// The text lies behind a `<` that no later `>` has closed.
pub open spec fn inside_tag(s: Seq<char>) -> bool
    decreases s.len(),
{
    if s.len() == 0 || s.last() == '>' {
        false
    } else {
        s.last() == '<' || inside_tag(s.drop_last())
    }
}

/// The text with every tag dropped, each angle bracket leaving one space.
pub open spec fn without_tags(s: Seq<char>) -> Seq<char>
    decreases s.len(),
{
    if s.len() == 0 {
        seq![]
    } else if s.last() == '<' || s.last() == '>' {
        without_tags(s.drop_last()).push(' ')
    } else if inside_tag(s.drop_last()) {
        without_tags(s.drop_last())
    } else {
        without_tags(s.drop_last()).push(s.last())
    }
}

/// The text with the basic named and numeric entities decoded, `&amp;` last.
pub open spec fn decoded(s: Seq<char>) -> Seq<char> {
    let s = replace_all(s, "&quot;"@, "\""@);
    let s = replace_all(s, "&#39;"@, "'"@);
    let s = replace_all(s, "&apos;"@, "'"@);
    let s = replace_all(s, "&lt;"@, "<"@);
    let s = replace_all(s, "&gt;"@, ">"@);
    replace_all(s, "&amp;"@, "&"@)
}

/// The value of an attribute, given what stands behind its equals sign: text in
/// matching quotes, or everything up to white space or the end of the tag.
pub open spec fn attribute_value(s: Seq<char>) -> Option<Seq<char>> {
    if s.len() == 0 {
        None
    } else if s[0] == '"' || s[0] == '\'' {
        let rest = s.skip(1);
        let n = span_out(rest, CharClass::Only(s[0]));
        if n < rest.len() {
            Some(rest.take(n as int))
        } else {
            None
        }
    } else {
        Some(before_first(s, CharClass::AttributeEnd))
    }
}

/// The decoded target of an opening anchor tag.
pub open spec fn anchor_target(open_tag: Seq<char>) -> Option<Seq<char>> {
    match find_ignoring_case(open_tag, "href"@) {
        None => None,
        Some(i) => {
            let behind = trim_start(open_tag.skip(i as int + 4), CharClass::Space);
            if behind.len() == 0 || behind[0] != '=' {
                None
            } else {
                match attribute_value(trim_start(behind.skip(1), CharClass::Space)) {
                    Some(v) => Some(decoded(v)),
                    None => None,
                }
            }
        },
    }
}

/// The text with each complete anchor element replaced by its target, or by its
/// content where it has none, between two spaces. An element whose opening or
/// closing tag is incomplete ends the replacing: the rest stays as it is.
pub open spec fn anchors_replaced(s: Seq<char>) -> Seq<char>
    decreases s.len(),
    via anchors_replaced_decreases
{
    match find_ignoring_case(s, "<a"@) {
        None => s,
        Some(i) => {
            let element = s.skip(i as int);
            let tag_end = span_out(element, CharClass::Only('>'));
            let inner = element.skip(tag_end as int + 1);
            if tag_end >= element.len() {
                s
            } else {
                match find_ignoring_case(inner, "</a>"@) {
                    None => s,
                    Some(k) => {
                        let shown = match anchor_target(element.take(tag_end as int + 1)) {
                            Some(target) => target,
                            None => inner.take(k as int),
                        };
                        s.take(i as int) + seq![' '] + shown + seq![' '] + anchors_replaced(
                            inner.skip(k as int + 4),
                        )
                    },
                }
            }
        },
    }
}

#[via_fn]
proof fn anchors_replaced_decreases(s: Seq<char>) {
    reveal_strlit("<a");
    reveal_strlit("</a>");
    lemma_find_within(s, "<a"@);
    if let Some(i) = find_ignoring_case(s, "<a"@) {
        let element = s.skip(i as int);
        let tag_end = span_out(element, CharClass::Only('>'));
        lemma_span_out(element, CharClass::Only('>'));
        if tag_end < element.len() {
            lemma_find_within(element.skip(tag_end as int + 1), "</a>"@);
        }
    }
}

/// Drops the tags of a text.
pub fn strip_html_tags(input: &[char]) -> (r: Vec<char>)
    ensures
        r@ == without_tags(input@),
{
    let mut out: Vec<char> = Vec::new();
    let mut in_tag: bool = false;
    let mut i: usize = 0;
    while i < input.len()
        invariant
            i <= input.len(),
            in_tag == inside_tag(input@.take(i as int)),
            out@ == without_tags(input@.take(i as int)),
        decreases input.len() - i,
    {
        let ch = input[i];
        if ch == '<' {
            in_tag = true;
            out.push(' ');
        } else if ch == '>' {
            in_tag = false;
            out.push(' ');
        } else if !in_tag {
            out.push(ch);
        }
        assert(input@.take(i + 1).drop_last() == input@.take(i as int));
        i += 1;
    }
    assert(input@.take(input.len() as int) == input@);
    out
}

fn replace_literal(s: &[char], pattern: &str, to: &str) -> (r: Vec<char>)
    ensures
        r@ == replace_all(s@, pattern@, to@),
{
    let p = chars_of(pattern);
    let t = chars_of(to);
    replace_text(s, p.as_slice(), t.as_slice())
}

/// Decodes the basic entities.
pub fn decode_basic_html_entities(input: &[char]) -> (r: Vec<char>)
    ensures
        r@ == decoded(input@),
{
    let s = replace_literal(input, "&quot;", "\"");
    let s = replace_literal(s.as_slice(), "&#39;", "'");
    let s = replace_literal(s.as_slice(), "&apos;", "'");
    let s = replace_literal(s.as_slice(), "&lt;", "<");
    let s = replace_literal(s.as_slice(), "&gt;", ">");
    replace_literal(s.as_slice(), "&amp;", "&")
}

fn parse_attribute_value(s: &[char]) -> (r: Option<&[char]>)
    ensures
        match r {
            Some(v) => attribute_value(s@) == Some(v@),
            None => attribute_value(s@) is None,
        },
{
    if s.len() == 0 {
        return None;
    }
    if s[0] == '"' || s[0] == '\'' {
        let rest = slice_subrange(s, 1, s.len());
        let n: usize = count_span_out(rest, CharClass::Only(s[0]));
        if n < rest.len() {
            Some(slice_subrange(rest, 0, n))
        } else {
            None
        }
    } else {
        Some(text_before_first(s, CharClass::AttributeEnd))
    }
}

/// Reads the target of an opening anchor tag.
pub fn parse_anchor_href(open_tag: &[char]) -> (r: Option<Vec<char>>)
    ensures
        match r {
            Some(v) => anchor_target(open_tag@) == Some(v@),
            None => anchor_target(open_tag@) is None,
        },
{
    proof {
        reveal_strlit("href");
    }
    let href = chars_of("href");
    assert(href@.len() == 4);
    match find_ascii_case_insensitive(open_tag, href.as_slice()) {
        None => None,
        Some(i) => {
            let end: usize = open_tag.len();
            let behind = trimmed_start(slice_subrange(open_tag, i + 4, end), CharClass::Space);
            if behind.len() == 0 || behind[0] != '=' {
                return None;
            }
            let value = trimmed_start(slice_subrange(behind, 1, behind.len()), CharClass::Space);
            match parse_attribute_value(value) {
                Some(v) => Some(decode_basic_html_entities(v)),
                None => None,
            }
        },
    }
}

/// Replaces the anchor elements of a text.
pub fn replace_html_anchor_tags(input: &[char]) -> (r: Vec<char>)
    ensures
        r@ == anchors_replaced(input@),
{
    proof {
        reveal_strlit("<a");
        reveal_strlit("</a>");
    }
    let open_mark = chars_of("<a");
    let close_mark = chars_of("</a>");
    let mut out: Vec<char> = Vec::new();
    let mut cursor: usize = 0;
    assert(input@.skip(0) == input@);
    loop
        invariant
            cursor <= input.len(),
            open_mark@ == "<a"@,
            open_mark@.len() == 2,
            close_mark@ == "</a>"@,
            close_mark@.len() == 4,
            out@ + anchors_replaced(input@.skip(cursor as int)) == anchors_replaced(input@),
        decreases input.len() - cursor,
    {
        let s = slice_subrange(input, cursor, input.len());
        assert(s@ == input@.skip(cursor as int));
        let ghost before = out@;
        let i: usize = match find_ascii_case_insensitive(s, open_mark.as_slice()) {
            Some(i) => i,
            None => {
                push_all(&mut out, s);
                return out;
            },
        };
        let element = slice_subrange(s, i, s.len());
        assert(element@ == s@.skip(i as int));
        let tag_end: usize = count_span_out(element, CharClass::Only('>'));
        if tag_end == element.len() {
            push_all(&mut out, s);
            return out;
        }
        let inner = slice_subrange(element, tag_end + 1, element.len());
        assert(inner@ == element@.skip(tag_end + 1));
        let k: usize = match find_ascii_case_insensitive(inner, close_mark.as_slice()) {
            Some(k) => k,
            None => {
                push_all(&mut out, s);
                return out;
            },
        };
        let open_tag = slice_subrange(element, 0, tag_end + 1);
        assert(open_tag@ == element@.take(tag_end + 1));
        let shown: Vec<char> = match parse_anchor_href(open_tag) {
            Some(target) => target,
            None => owned(slice_subrange(inner, 0, k)),
        };
        push_all(&mut out, slice_subrange(s, 0, i));
        out.push(' ');
        push_all(&mut out, shown.as_slice());
        out.push(' ');
        proof {
            let next = inner@.skip(k + 4);
            assert(next == input@.skip(cursor + i + tag_end + 1 + k + 4));
            assert(out@ == before + s@.take(i as int) + seq![' '] + shown@ + seq![' ']);
            assert(anchors_replaced(s@) == s@.take(i as int) + seq![' '] + shown@ + seq![' ']
                + anchors_replaced(next));
            assert(out@ + anchors_replaced(next) == before + (s@.take(i as int) + seq![' '] + shown@
                + seq![' '] + anchors_replaced(next)));
        }
        cursor = cursor + i + tag_end + 1 + k + 4;
    }
}

/// A text without tags holds no angle bracket.
pub proof fn law_no_angle_bracket_survives(s: Seq<char>)
    ensures
        forall|i: int| 0 <= i < without_tags(s).len() ==> {
            &&& #[trigger] without_tags(s)[i] != '<'
            &&& without_tags(s)[i] != '>'
        },
    decreases s.len(),
{
    if s.len() > 0 {
        law_no_angle_bracket_survives(s.drop_last());
        let shorter = without_tags(s.drop_last());
        assert forall|i: int| 0 <= i < without_tags(s).len() implies {
            &&& #[trigger] without_tags(s)[i] != '<'
            &&& without_tags(s)[i] != '>'
        } by {
            if i < shorter.len() {
                assert(without_tags(s)[i] == shorter[i]);
            }
        }
    }
}

/// Text without angle brackets passes through unchanged.
pub proof fn law_plain_text_is_kept(s: Seq<char>)
    requires
        forall|i: int| 0 <= i < s.len() ==> #[trigger] s[i] != '<' && s[i] != '>',
    ensures
        without_tags(s) == s,
        !inside_tag(s),
    decreases s.len(),
{
    if s.len() > 0 {
        law_plain_text_is_kept(s.drop_last());
        assert(s.drop_last().push(s.last()) == s);
    }
}

} // verus!
