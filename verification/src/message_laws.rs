//! What of a message reaches the ear.

use crate::escaping::{entity, escaped, law_decoding_undoes_escaping};
use crate::host_laws::lemma_out_is;
use crate::html::{
    anchor_target, anchors_replaced, attribute_value, decoded, inside_tag, law_plain_text_is_kept,
    without_tags,
};
use crate::phrase::message_words;
use crate::search::{find_ignoring_case, occurs, replace_all, same_ignoring_case};
use crate::text::{
    in_class, is_space, lemma_span_in, lemma_span_out, lower, lower_all, span_in, span_out,
    trim_start, words, CharClass,
};
use crate::text_laws::{is_word, lacks, lemma_words_first, lemma_words_skip_space};
use vstd::prelude::*;

verus! {

/// An escaped text holds no angle bracket and no quote.
proof fn lemma_escaped_lacks(t: Seq<char>, named: Seq<bool>)
    ensures
        lacks(escaped(t, named), '<'),
        lacks(escaped(t, named), '>'),
        lacks(escaped(t, named), '"'),
        lacks(escaped(t, named), '\''),
    decreases t.len(),
{
    if t.len() > 0 {
        reveal_strlit("&quot;");
        reveal_strlit("&#39;");
        reveal_strlit("&apos;");
        reveal_strlit("&lt;");
        reveal_strlit("&gt;");
        reveal_strlit("&amp;");
        lemma_escaped_lacks(t.drop_first(), named.drop_first());
        let e = entity(t[0], named[0]);
        assert(lacks(e, '<') && lacks(e, '>') && lacks(e, '"') && lacks(e, '\''));
    }
}

/// A pattern that begins with an angle bracket is not found where there is none.
proof fn lemma_no_tag(s: Seq<char>, tag: Seq<char>)
    requires
        tag.len() > 0,
        tag[0] == '<',
        lacks(s, '<'),
    ensures
        find_ignoring_case(s, tag) is None,
    decreases s.len(),
{
    if tag.len() <= s.len() {
        let t = s.take(tag.len() as int);
        assert(lower_all(t)[0] == lower(s[0]));
        assert(lower_all(tag)[0] == '<');
        assert(!same_ignoring_case(t, tag));
        lemma_no_tag(s.drop_first(), tag);
    }
}

/// A text without an opening angle bracket keeps its anchors, having none.
proof fn lemma_no_anchor(s: Seq<char>)
    requires
        lacks(s, '<'),
    ensures
        anchors_replaced(s) == s,
{
    reveal_strlit("<a");
    lemma_no_tag(s, "<a"@);
}

/// Escaping a text hides nothing of it and adds nothing to it: whatever characters it
/// holds, and whichever form its apostrophes take, its words arrive as they were.
pub proof fn law_escaped_text_arrives_as_written(t: Seq<char>, named: Seq<bool>)
    ensures
        message_words(escaped(t, named)) == words(t),
{
    lemma_escaped_lacks(t, named);
    lemma_no_anchor(escaped(t, named));
    law_plain_text_is_kept(escaped(t, named));
    law_decoding_undoes_escaping(t, named);
}

/// The blanks of Unicode: controls from the tab to the carriage return, the next line, and
/// spaces and separators of all widths.
pub open spec fn is_blank(c: char) -> bool {
    let n = c as u32;
    ||| 9 <= n <= 13
    ||| n == 0x20 || n == 0x85 || n == 0xa0 || n == 0x1680
    ||| 0x2000 <= n <= 0x200a
    ||| n == 0x2028 || n == 0x2029 || n == 0x202f || n == 0x205f || n == 0x3000
}

/// A blank divides the words of a text from those that follow it.
pub proof fn law_blanks_divide_words(a: Seq<char>, c: char, b: Seq<char>)
    requires
        is_blank(c),
    ensures
        words(a + seq![c] + b) == words(a) + words(b),
{
    lemma_words_divide(a, c, b);
}

pub proof fn lemma_words_divide(a: Seq<char>, c: char, b: Seq<char>)
    requires
        is_space(c),
    ensures
        words(a + seq![c] + b) == words(a) + words(b),
    decreases a.len(),
{
    let k = CharClass::Space;
    let whole = a + seq![c] + b;
    if a.len() == 0 {
        assert(whole == seq![c] + b);
        lemma_words_skip_space(c, b);
        assert(words(a) == Seq::<Seq<char>>::empty());
        assert(words(a) + words(b) == words(b));
    } else if is_space(a[0]) {
        let rest = a.drop_first();
        lemma_words_divide(rest, c, b);
        assert(whole == seq![a[0]] + (rest + seq![c] + b));
        lemma_words_skip_space(a[0], rest + seq![c] + b);
        assert(a == seq![a[0]] + rest);
        lemma_words_skip_space(a[0], rest);
    } else {
        lemma_span_out(a, k);
        let n = span_out(a, k) as int;
        let w = a.take(n);
        let rest = a.skip(n);
        assert(is_word(w)) by {
            assert forall|i: int| 0 <= i < w.len() implies !is_space(#[trigger] w[i]) by {
                assert(w[i] == a[i]);
            }
        }
        lemma_words_divide(rest, c, b);
        if rest.len() > 0 {
            assert(rest[0] == a[n]);
        }
        let more = rest + seq![c] + b;
        assert(whole == w + more);
        assert(a == w + rest);
        assert(more[0] == (if rest.len() > 0 {
            rest[0]
        } else {
            c
        }));
        lemma_words_first(w, more);
        lemma_words_first(w, rest);
        assert(seq![w] + (words(rest) + words(b)) == (seq![w] + words(rest)) + words(b));
    }
}

/// Characters that are no blanks hold together, whatever else they are.
pub proof fn law_other_characters_hold_together(w: Seq<char>)
    requires
        w.len() > 0,
        forall|i: int| 0 <= i < w.len() ==> !is_blank(#[trigger] w[i]),
    ensures
        words(w) == seq![w],
{
    assert(is_word(w));
    lemma_words_first(w, seq![]);
    assert(w + Seq::<char>::empty() == w);
    assert(words(Seq::<char>::empty()) == Seq::<Seq<char>>::empty());
    assert(seq![w] + Seq::<Seq<char>>::empty() == seq![w]);
}

/// A space divides what is decoded on its two sides.
proof fn lemma_replace_divides(a: Seq<char>, b: Seq<char>, pattern: Seq<char>, to: Seq<char>)
    requires
        pattern.len() > 0,
        lacks(pattern, ' '),
    ensures
        replace_all(a + seq![' '] + b, pattern, to) == replace_all(a, pattern, to) + seq![' ']
            + replace_all(b, pattern, to),
    decreases a.len(),
{
    let whole = a + seq![' '] + b;
    if a.len() == 0 {
        assert(whole[0] == ' ');
        assert(!pattern.is_prefix_of(whole)) by {
            if pattern.is_prefix_of(whole) {
                assert(whole.subrange(0, pattern.len() as int)[0] == whole[0]);
                assert(pattern[0] == ' ');
            }
        }
        assert(whole.drop_first() == b);
        assert(replace_all(a, pattern, to) == Seq::<char>::empty());
        assert(replace_all(a, pattern, to) + seq![' '] == seq![' ']);
    } else if pattern.is_prefix_of(a) {
        let rest = a.skip(pattern.len() as int);
        lemma_replace_divides(rest, b, pattern, to);
        assert(whole.subrange(0, pattern.len() as int) == a.subrange(0, pattern.len() as int));
        assert(whole.skip(pattern.len() as int) == rest + seq![' '] + b);
        let (x, y) = (replace_all(rest, pattern, to), replace_all(b, pattern, to));
        assert(to + (x + seq![' '] + y) == (to + x) + seq![' '] + y);
    } else {
        let rest = a.drop_first();
        lemma_replace_divides(rest, b, pattern, to);
        assert(!pattern.is_prefix_of(whole)) by {
            if pattern.is_prefix_of(whole) {
                let n = pattern.len() as int;
                assert(pattern == whole.subrange(0, n));
                if n <= a.len() {
                    assert(whole.subrange(0, n) == a.subrange(0, n));
                } else {
                    assert(whole.subrange(0, n)[a.len() as int] == ' ');
                    assert(pattern[a.len() as int] == ' ');
                }
            }
        }
        assert(whole.drop_first() == rest + seq![' '] + b);
        let (x, y) = (replace_all(rest, pattern, to), replace_all(b, pattern, to));
        assert(seq![a[0]] + (x + seq![' '] + y) == (seq![a[0]] + x) + seq![' '] + y);
    }
}

proof fn lemma_entities_lack_space()
    ensures
        "&quot;"@.len() > 0 && lacks("&quot;"@, ' '),
        "&#39;"@.len() > 0 && lacks("&#39;"@, ' '),
        "&apos;"@.len() > 0 && lacks("&apos;"@, ' '),
        "&lt;"@.len() > 0 && lacks("&lt;"@, ' '),
        "&gt;"@.len() > 0 && lacks("&gt;"@, ' '),
        "&amp;"@.len() > 0 && lacks("&amp;"@, ' '),
{
    reveal_strlit("&quot;");
    reveal_strlit("&#39;");
    reveal_strlit("&apos;");
    reveal_strlit("&lt;");
    reveal_strlit("&gt;");
    reveal_strlit("&amp;");
}

/// No entity reaches over a space: what stands on its two sides is decoded apart.
pub proof fn law_decoding_stops_at_spaces(a: Seq<char>, b: Seq<char>)
    ensures
        decoded(a + seq![' '] + b) == decoded(a) + seq![' '] + decoded(b),
{
    lemma_entities_lack_space();
    lemma_replace_divides(a, b, "&quot;"@, "\""@);
    let (a, b) = (replace_all(a, "&quot;"@, "\""@), replace_all(b, "&quot;"@, "\""@));
    lemma_replace_divides(a, b, "&#39;"@, "'"@);
    let (a, b) = (replace_all(a, "&#39;"@, "'"@), replace_all(b, "&#39;"@, "'"@));
    lemma_replace_divides(a, b, "&apos;"@, "'"@);
    let (a, b) = (replace_all(a, "&apos;"@, "'"@), replace_all(b, "&apos;"@, "'"@));
    lemma_replace_divides(a, b, "&lt;"@, "<"@);
    let (a, b) = (replace_all(a, "&lt;"@, "<"@), replace_all(b, "&lt;"@, "<"@));
    lemma_replace_divides(a, b, "&gt;"@, ">"@);
    let (a, b) = (replace_all(a, "&gt;"@, ">"@), replace_all(b, "&gt;"@, ">"@));
    lemma_replace_divides(a, b, "&amp;"@, "&"@);
}

/// What stands behind a closed tag, or a text without tags, is read on its own.
proof fn lemma_tags_divide(a: Seq<char>, b: Seq<char>)
    requires
        !inside_tag(a),
    ensures
        without_tags(a + b) == without_tags(a) + without_tags(b),
        inside_tag(a + b) == inside_tag(b),
    decreases b.len(),
{
    if b.len() == 0 {
        assert(a + b == a);
        assert(without_tags(a) + without_tags(b) == without_tags(a));
    } else {
        lemma_tags_divide(a, b.drop_last());
        assert((a + b).drop_last() == a + b.drop_last());
        assert((a + b).last() == b.last());
        let (x, y) = (without_tags(a), without_tags(b.drop_last()));
        assert((x + y).push(' ') == x + y.push(' '));
        assert((x + y).push(b.last()) == x + y.push(b.last()));
    }
}

/// The inside of an open tag leaves nothing.
proof fn lemma_inside_of_tag(m: Seq<char>)
    requires
        lacks(m, '<'),
        lacks(m, '>'),
    ensures
        inside_tag(seq!['<'] + m),
        without_tags(seq!['<'] + m) == seq![' '],
    decreases m.len(),
{
    let t = seq!['<'] + m;
    if m.len() == 0 {
        assert(t.drop_last() == Seq::<char>::empty());
        assert(without_tags(t.drop_last()) == Seq::<char>::empty());
        assert(without_tags(t) == seq![' ']);
    } else {
        lemma_inside_of_tag(m.drop_last());
        assert(t.drop_last() == seq!['<'] + m.drop_last());
        assert(t.last() == m.last());
    }
}

/// The words of two texts with two spaces between them.
proof fn lemma_words_around_spaces(a: Seq<char>, b: Seq<char>)
    ensures
        words(a + seq![' '] + seq![' '] + b) == words(a) + words(b),
{
    let rest = seq![' '] + b;
    lemma_words_skip_space(' ', b);
    lemma_words_divide(a, ' ', rest);
    assert(a + seq![' '] + seq![' '] + b == a + seq![' '] + rest);
}

/// An anchor is not found where no angle bracket is followed by its letter.
proof fn lemma_other_tag_is_no_anchor(a: Seq<char>, m: Seq<char>, b: Seq<char>)
    requires
        lacks(a, '<'),
        lacks(m, '<'),
        lacks(b, '<'),
        m.len() > 0,
        m[0] != 'a',
        m[0] != 'A',
    ensures
        find_ignoring_case(a + seq!['<'] + m + seq!['>'] + b, "<a"@) is None,
    decreases a.len(),
{
    reveal_strlit("<a");
    let s = a + seq!['<'] + m + seq!['>'] + b;
    let t = s.take(2);
    assert(lower_all(t)[0] == lower(s[0]));
    assert(lower_all(t)[1] == lower(s[1]));
    assert(lower_all("<a"@)[0] == '<');
    assert(lower_all("<a"@)[1] == 'a');
    if a.len() > 0 {
        assert(s[0] == a[0]);
        assert(!same_ignoring_case(t, "<a"@));
        lemma_other_tag_is_no_anchor(a.drop_first(), m, b);
        assert(s.drop_first() == a.drop_first() + seq!['<'] + m + seq!['>'] + b);
    } else {
        assert(s[1] == m[0]);
        assert(!same_ignoring_case(t, "<a"@));
        let rest = m + seq!['>'] + b;
        assert(s.drop_first() == rest);
        lemma_no_tag(rest, "<a"@);
    }
}

/// Markup between two texts is not read out and takes nothing of them along: the words
/// before it and those behind it arrive, in order.
pub proof fn law_markup_is_not_read_out(
    a: Seq<char>,
    markup: Seq<char>,
    b: Seq<char>,
    named_a: Seq<bool>,
    named_b: Seq<bool>,
)
    requires
        markup.len() > 0,
        markup[0] != 'a',
        markup[0] != 'A',
        lacks(markup, '<'),
        lacks(markup, '>'),
    ensures
        message_words(
            escaped(a, named_a) + seq!['<'] + markup + seq!['>'] + escaped(b, named_b),
        ) == words(a) + words(b),
{
    let (x, y) = (escaped(a, named_a), escaped(b, named_b));
    lemma_escaped_lacks(a, named_a);
    lemma_escaped_lacks(b, named_b);
    lemma_other_tag_is_no_anchor(x, markup, y);
    law_tags_leave_spaces(x, markup, y);
    law_plain_text_is_kept(y);
    law_decoding_undoes_escaping(a, named_a);
    law_decoding_undoes_escaping(b, named_b);
    let rest = seq![' '] + y;
    law_decoding_stops_at_spaces(x, rest);
    assert(x + seq![' '] + seq![' '] + y == x + seq![' '] + rest);
    let nothing = Seq::<char>::empty();
    assert(escaped(nothing, seq![]) == nothing);
    law_decoding_undoes_escaping(nothing, seq![]);
    law_decoding_stops_at_spaces(nothing, y);
    assert(rest == nothing + seq![' '] + y);
    assert(decoded(rest) == seq![' '] + b);
    assert(a + seq![' '] + (seq![' '] + b) == a + seq![' '] + seq![' '] + b);
    lemma_words_around_spaces(a, b);
}

/// A pattern is found where a text that cannot hold its beginning ends.
proof fn lemma_found_behind(a: Seq<char>, s: Seq<char>, tag: Seq<char>)
    requires
        tag.len() > 0,
        tag[0] == '<',
        lacks(a, '<'),
        tag.len() <= s.len(),
        lower_all(s.take(tag.len() as int)) == lower_all(tag),
    ensures
        find_ignoring_case(a + s, tag) == Some(a.len()),
    decreases a.len(),
{
    let whole = a + s;
    let t = whole.take(tag.len() as int);
    if a.len() == 0 {
        assert(whole == s);
    } else {
        assert(lower_all(t)[0] == lower(a[0]));
        assert(lower_all(tag)[0] == '<');
        assert(!same_ignoring_case(t, tag));
        lemma_found_behind(a.drop_first(), s, tag);
        assert(whole.drop_first() == a.drop_first() + s);
    }
}

/// The end of a run that a character closes.
proof fn lemma_run_ends(run: Seq<char>, c: char, rest: Seq<char>)
    requires
        lacks(run, c),
    ensures
        span_out(run + seq![c] + rest, CharClass::Only(c)) == run.len(),
    decreases run.len(),
{
    let s = run + seq![c] + rest;
    if run.len() > 0 {
        assert(s[0] == run[0]);
        lemma_run_ends(run.drop_first(), c, rest);
        assert(s.drop_first() == run.drop_first() + seq![c] + rest);
    } else {
        assert(s[0] == c);
    }
}

/// The beginning of an opening tag of an anchor, up to the value of its address. Tags and
/// attributes may be written in any case, with other attributes before the address and
/// white space around the equals sign.
pub ghost struct Head {
    pub tag: Seq<char>,
    pub attributes: Seq<char>,
    pub href: Seq<char>,
    pub before: Seq<char>,
    pub after: Seq<char>,
}

/// No character but white space.
pub open spec fn all_space(s: Seq<char>) -> bool {
    forall|i: int| 0 <= i < s.len() ==> is_space(#[trigger] s[i])
}

/// A beginning whose parts are what they are called. The attributes before the address
/// hold no `h`, so that none of them can be taken for it.
pub open spec fn head_valid(h: Head) -> bool {
    &&& lower_all(h.tag) == "<a"@
    &&& lacks(h.attributes, 'h')
    &&& lacks(h.attributes, 'H')
    &&& lacks(h.attributes, '>')
    &&& lower_all(h.href) == "href"@
    &&& all_space(h.before)
    &&& all_space(h.after)
}

/// A beginning as it is written.
pub open spec fn head_text(h: Head) -> Seq<char> {
    h.tag + h.attributes + h.href + h.before + seq!['='] + h.after
}

/// A closing tag of an anchor, in any case.
pub open spec fn is_closing(tag: Seq<char>) -> bool {
    lower_all(tag) == "</a>"@
}

/// Lower case letters are kept.
proof fn lemma_literals_are_lower()
    ensures
        "<a"@.len() == 2 && "<a"@[0] == '<' && "<a"@[1] == 'a' && lower_all("<a"@) == "<a"@,
        "</a>"@.len() == 4 && "</a>"@[0] == '<' && lower_all("</a>"@) == "</a>"@,
        "href"@.len() == 4 && "href"@[0] == 'h' && lower_all("href"@) == "href"@,
        lacks("href"@, '>'),
{
    reveal_strlit("<a");
    reveal_strlit("</a>");
    reveal_strlit("href");
    assert(lower_all("<a"@) =~= "<a"@);
    assert(lower_all("</a>"@) =~= "</a>"@);
    assert(lower_all("href"@) =~= "href"@);
}

/// What the parts of a beginning hold.
proof fn lemma_head(h: Head)
    requires
        head_valid(h),
    ensures
        h.tag.len() == 2,
        h.href.len() == 4,
        lacks(h.tag, 'h') && lacks(h.tag, 'H'),
        head_text(h).take(2) == h.tag,
        lacks(head_text(h), '>'),
{
    lemma_literals_are_lower();
    let (l, m) = (lower_all(h.tag), lower_all(h.href));
    assert(l.len() == h.tag.len() && m.len() == h.href.len());
    assert(l[0] == lower(h.tag[0]) && l[1] == lower(h.tag[1]));
    assert(head_text(h).take(2) =~= h.tag);
    assert(lacks(h.href, '>')) by {
        assert forall|i: int| 0 <= i < h.href.len() implies #[trigger] h.href[i] != '>' by {
            assert(m[i] == lower(h.href[i]));
        }
    }
    assert(lacks(h.before, '>') && lacks(h.after, '>'));
}

/// The address attribute is found behind a text that cannot hold its beginning.
proof fn lemma_found_href(u: Seq<char>, v: Seq<char>)
    requires
        lacks(u, 'h'),
        lacks(u, 'H'),
        v.len() >= 4,
        lower_all(v.take(4)) == "href"@,
    ensures
        find_ignoring_case(u + v, "href"@) == Some(u.len()),
    decreases u.len(),
{
    lemma_literals_are_lower();
    let whole = u + v;
    let t = whole.take(4);
    if u.len() == 0 {
        assert(whole == v);
    } else {
        assert(lower_all(t)[0] == lower(u[0]));
        assert(u[0] != 'h' && u[0] != 'H');
        assert(lower(u[0]) != 'h');
        assert(!same_ignoring_case(t, "href"@));
        lemma_found_href(u.drop_first(), v);
        assert(whole.drop_first() == u.drop_first() + v);
    }
}

/// White space before a text does not count.
proof fn lemma_trim_start_padded(padding: Seq<char>, s: Seq<char>)
    requires
        all_space(padding),
        s.len() > 0,
        !is_space(s[0]),
    ensures
        trim_start(padding + s, CharClass::Space) == s,
{
    let k = CharClass::Space;
    let t = padding + s;
    lemma_span_in(t, k);
    let n = span_in(t, k) as int;
    if n < padding.len() {
        assert(t[n] == padding[n]);
    }
    assert(t[padding.len() as int] == s[0]);
    if n > padding.len() {
        assert(in_class(k, t[padding.len() as int]));
    }
    assert(t.skip(n) =~= s);
}

/// The target of a tag is what the text behind the beginning gives.
proof fn lemma_target_of(h: Head, behind: Seq<char>)
    requires
        head_valid(h),
        behind.len() > 0,
        !is_space(behind[0]),
    ensures
        anchor_target(head_text(h) + behind) == (match attribute_value(behind) {
            Some(v) => Some(decoded(v)),
            None => None,
        }),
{
    lemma_head(h);
    let tag = head_text(h) + behind;
    let u = h.tag + h.attributes;
    let equals = seq!['='] + (h.after + behind);
    let v = h.href + (h.before + equals);
    assert(tag =~= u + v);
    assert(v.take(4) =~= h.href);
    lemma_found_href(u, v);
    let rest = tag.skip(u.len() as int + 4);
    assert(rest =~= h.before + equals);
    assert(equals[0] == '=');
    lemma_trim_start_padded(h.before, equals);
    assert(equals.skip(1) =~= h.after + behind);
    lemma_trim_start_padded(h.after, behind);
}

/// The opening tag of an anchor that links to an address in quotes, with whatever follows
/// it in the tag.
pub open spec fn opening(h: Head, address: Seq<char>, quote: char, more: Seq<char>) -> Seq<char> {
    head_text(h) + seq![quote] + address + seq![quote] + more + seq!['>']
}

/// Where an opening tag leads.
proof fn lemma_opening_leads(h: Head, value: Seq<char>, quote: char, more: Seq<char>)
    requires
        head_valid(h),
        quote == '"' || quote == '\'',
        lacks(value, quote),
    ensures
        anchor_target(opening(h, value, quote, more)) == Some(decoded(value)),
{
    let end = more + seq!['>'];
    let quoted = seq![quote] + value + seq![quote] + end;
    assert(opening(h, value, quote, more) =~= head_text(h) + quoted);
    lemma_target_of(h, quoted);
    let rest = quoted.skip(1);
    assert(rest =~= value + seq![quote] + end);
    lemma_run_ends(value, quote, end);
    assert(rest.take(value.len() as int) =~= value);
    assert(attribute_value(quoted) == Some(value));
}

/// None of the entities that are decoded occurs.
pub open spec fn no_entity(s: Seq<char>) -> bool {
    &&& !occurs(s, "&quot;"@)
    &&& !occurs(s, "&#39;"@)
    &&& !occurs(s, "&apos;"@)
    &&& !occurs(s, "&lt;"@)
    &&& !occurs(s, "&gt;"@)
    &&& !occurs(s, "&amp;"@)
}

/// A pattern that does not occur is not replaced.
proof fn lemma_replace_absent(s: Seq<char>, pattern: Seq<char>, to: Seq<char>)
    requires
        !occurs(s, pattern),
        pattern.len() > 0,
    ensures
        replace_all(s, pattern, to) == s,
    decreases s.len(),
{
    if s.len() > 0 {
        if pattern.is_prefix_of(s) {
            assert(s.subrange(0int, 0int + pattern.len()) == pattern);
        }
        let rest = s.drop_first();
        if occurs(rest, pattern) {
            let i = choose|i: int|
                0 <= i <= rest.len() - pattern.len() && #[trigger] rest.subrange(
                    i,
                    i + pattern.len(),
                ) == pattern;
            assert(s.subrange(i + 1, i + 1 + pattern.len()) =~= rest.subrange(
                i,
                i + pattern.len(),
            ));
        }
        lemma_replace_absent(rest, pattern, to);
        assert(seq![s[0]] + rest =~= s);
    }
}

/// Only the basic entities are decoded: a text in which none of them occurs stays as it
/// is, ampersands and all.
pub proof fn law_other_text_is_not_decoded(s: Seq<char>)
    requires
        no_entity(s),
    ensures
        decoded(s) == s,
{
    lemma_entities_lack_space();
    lemma_replace_absent(s, "&quot;"@, "\""@);
    lemma_replace_absent(s, "&#39;"@, "'"@);
    lemma_replace_absent(s, "&apos;"@, "'"@);
    lemma_replace_absent(s, "&lt;"@, "<"@);
    lemma_replace_absent(s, "&gt;"@, ">"@);
    lemma_replace_absent(s, "&amp;"@, "&"@);
}

/// A text that lacks the first character of a pattern is kept.
pub proof fn lemma_replace_keeps(u: Seq<char>, pattern: Seq<char>, to: Seq<char>)
    requires
        pattern.len() > 0,
        lacks(u, pattern[0]),
    ensures
        replace_all(u, pattern, to) == u,
    decreases u.len(),
{
    if u.len() > 0 {
        lemma_replace_keeps(u.drop_first(), pattern, to);
        if pattern.is_prefix_of(u) {
            assert(u.subrange(0, pattern.len() as int)[0] == u[0]);
        }
        assert(seq![u[0]] + u.drop_first() == u);
    }
}

/// Every anchor is replaced, by its target or by what it shows where it has none, and what
/// follows it is treated as a text of its own. What stands before it is kept.
pub proof fn law_every_anchor_is_replaced(
    x: Seq<char>,
    run: Seq<char>,
    shown: Seq<char>,
    closing: Seq<char>,
    y: Seq<char>,
)
    requires
        lacks(x, '<'),
        run.len() >= 2,
        lower_all(run.take(2)) == "<a"@,
        lacks(run, '>'),
        lacks(shown, '<'),
        is_closing(closing),
    ensures
        anchors_replaced(x + run + seq!['>'] + shown + closing + y) == x + seq![' '] + (
        match anchor_target(run + seq!['>']) {
            Some(target) => target,
            None => shown,
        }) + seq![' '] + anchors_replaced(y),
{
    lemma_literals_are_lower();
    let tag = run + seq!['>'];
    let behind = shown + closing + y;
    let s = x + run + seq!['>'] + shown + closing + y;
    let element = run + seq!['>'] + behind;
    assert(s =~= x + element);
    assert(element.take(2) =~= run.take(2));
    lemma_found_behind(x, element, "<a"@);
    assert(s.skip(x.len() as int) =~= element);
    lemma_run_ends(run, '>', behind);
    let end = run.len() as int;
    assert(element.skip(end + 1) =~= behind);
    assert(element.take(end + 1) =~= tag);
    assert(closing.len() == 4) by {
        assert(lower_all(closing).len() == closing.len());
    }
    assert(behind =~= shown + (closing + y));
    assert((closing + y).take(4) =~= closing);
    lemma_found_behind(shown, closing + y, "</a>"@);
    assert(behind.skip(shown.len() as int + 4) =~= y);
    assert(s.take(x.len() as int) =~= x);
}

/// An anchor whose opening tag or whose whole element is not closed stays as it is.
pub proof fn law_unfinished_anchors_stay(x: Seq<char>, run: Seq<char>, shown: Seq<char>)
    requires
        lacks(x, '<'),
        run.len() >= 2,
        lower_all(run.take(2)) == "<a"@,
        lacks(run, '>'),
        lacks(shown, '<'),
    ensures
        anchors_replaced(x + run) == x + run,
        anchors_replaced(x + run + seq!['>'] + shown) == x + run + seq!['>'] + shown,
{
    lemma_literals_are_lower();
    lemma_found_behind(x, run, "<a"@);
    assert((x + run).skip(x.len() as int) =~= run);
    lemma_out_is(run, CharClass::Only('>'), run.len() as int);
    let s = x + run + seq!['>'] + shown;
    let element = run + seq!['>'] + shown;
    assert(s =~= x + element);
    assert(element.take(2) =~= run.take(2));
    lemma_found_behind(x, element, "<a"@);
    assert(s.skip(x.len() as int) =~= element);
    lemma_run_ends(run, '>', shown);
    assert(element.skip(run.len() as int + 1) =~= shown);
    lemma_no_tag(shown, "</a>"@);
}

/// What is read of a text between spaces, itself between two escaped texts.
proof fn lemma_words_between(
    a: Seq<char>,
    middle: Seq<char>,
    text: Seq<char>,
    b: Seq<char>,
    named_a: Seq<bool>,
    named_b: Seq<bool>,
)
    requires
        lacks(middle, '<'),
        lacks(middle, '>'),
        decoded(middle) == text,
    ensures
        ({
            let s = escaped(a, named_a) + seq![' '] + middle + seq![' '] + escaped(b, named_b);
            words(decoded(without_tags(s))) == words(a) + words(text) + words(b)
        }),
{
    let (x, y) = (escaped(a, named_a), escaped(b, named_b));
    lemma_escaped_lacks(a, named_a);
    lemma_escaped_lacks(b, named_b);
    law_decoding_undoes_escaping(a, named_a);
    law_decoding_undoes_escaping(b, named_b);
    let s = x + seq![' '] + middle + seq![' '] + y;
    law_plain_text_is_kept(s);
    law_decoding_stops_at_spaces(x + seq![' '] + middle, y);
    law_decoding_stops_at_spaces(x, middle);
    lemma_words_divide(a + seq![' '] + text, ' ', b);
    lemma_words_divide(a, ' ', text);
}

/// A link in a message is read out as its address, in place of what it shows, between the
/// words before it and those behind it. The case of its tags makes no difference, nor do
/// other attributes and white space in them.
#[verifier::spinoff_prover]
pub proof fn law_links_are_read_as_their_address(
    a: Seq<char>,
    h: Head,
    address: Seq<char>,
    quote: char,
    more: Seq<char>,
    shown: Seq<char>,
    closing: Seq<char>,
    b: Seq<char>,
    named: (Seq<bool>, Seq<bool>, Seq<bool>),
)
    requires
        head_valid(h),
        quote == '"' || quote == '\'',
        lacks(address, '<'),
        lacks(address, '>'),
        no_entity(address),
        lacks(more, '>'),
        lacks(shown, '<'),
        is_closing(closing),
    ensures
        message_words(
            escaped(a, named.0) + opening(h, escaped(address, named.1), quote, more) + shown
                + closing + escaped(b, named.2),
        ) == words(a) + words(address) + words(b),
{
    let (x, y, value) = (escaped(a, named.0), escaped(b, named.2), escaped(address, named.1));
    lemma_escaped_lacks(a, named.0);
    lemma_escaped_lacks(b, named.2);
    lemma_escaped_lacks(address, named.1);
    lemma_head(h);
    let run = head_text(h) + seq![quote] + value + seq![quote] + more;
    assert(run.take(2) =~= head_text(h).take(2));
    assert(run + seq!['>'] =~= opening(h, value, quote, more));
    assert(x + opening(h, value, quote, more) + shown + closing + y =~= x + run + seq!['>'] + shown
        + closing + y);
    law_every_anchor_is_replaced(x, run, shown, closing, y);
    lemma_no_anchor(y);
    lemma_opening_leads(h, value, quote, more);
    law_decoding_undoes_escaping(address, named.1);
    law_other_text_is_not_decoded(address);
    lemma_words_between(a, address, address, b, named.0, named.2);
}

/// An address needs no quotes, as long as it holds no white space.
#[verifier::spinoff_prover]
pub proof fn law_addresses_need_no_quotes(
    a: Seq<char>,
    h: Head,
    address: Seq<char>,
    shown: Seq<char>,
    closing: Seq<char>,
    b: Seq<char>,
    named: (Seq<bool>, Seq<bool>),
)
    requires
        head_valid(h),
        is_word(address),
        address[0] != '"',
        address[0] != '\'',
        lacks(address, '<'),
        lacks(address, '>'),
        no_entity(address),
        lacks(shown, '<'),
        is_closing(closing),
    ensures
        message_words(
            escaped(a, named.0) + head_text(h) + address + seq!['>'] + shown + closing + escaped(
                b,
                named.1,
            ),
        ) == words(a) + words(address) + words(b),
{
    let (x, y) = (escaped(a, named.0), escaped(b, named.1));
    lemma_escaped_lacks(a, named.0);
    lemma_escaped_lacks(b, named.1);
    lemma_head(h);
    let run = head_text(h) + address;
    assert(run.take(2) =~= head_text(h).take(2));
    assert(x + head_text(h) + address + seq!['>'] + shown + closing + y =~= x + run + seq!['>']
        + shown + closing + y);
    law_every_anchor_is_replaced(x, run, shown, closing, y);
    lemma_no_anchor(y);
    let behind = address + seq!['>'];
    assert(run + seq!['>'] =~= head_text(h) + behind);
    lemma_target_of(h, behind);
    let k = CharClass::AttributeEnd;
    assert forall|i: int| 0 <= i < address.len() implies !in_class(k, #[trigger] behind[i]) by {
        assert(behind[i] == address[i]);
    }
    lemma_out_is(behind, k, address.len() as int);
    assert(behind.take(address.len() as int) =~= address);
    assert(attribute_value(behind) == Some(address));
    law_other_text_is_not_decoded(address);
    lemma_words_between(a, address, address, b, named.0, named.1);
}

/// The address attribute is not found where its first letter is missing.
proof fn lemma_no_href(s: Seq<char>)
    requires
        lacks(s, 'h'),
        lacks(s, 'H'),
    ensures
        find_ignoring_case(s, "href"@) is None,
    decreases s.len(),
{
    lemma_literals_are_lower();
    if s.len() >= 4 {
        let t = s.take(4);
        assert(lower_all(t)[0] == lower(s[0]));
        assert(s[0] != 'h' && s[0] != 'H');
        assert(lower(s[0]) != 'h');
        assert(!same_ignoring_case(t, "href"@));
        lemma_no_href(s.drop_first());
    }
}

/// An anchor without an address is read as what it shows.
#[verifier::spinoff_prover]
pub proof fn law_anchors_without_address_are_read_as_shown(
    a: Seq<char>,
    h: Head,
    shown: Seq<char>,
    closing: Seq<char>,
    b: Seq<char>,
    named: (Seq<bool>, Seq<bool>, Seq<bool>),
)
    requires
        head_valid(h),
        is_closing(closing),
    ensures
        message_words(
            escaped(a, named.0) + h.tag + h.attributes + seq!['>'] + escaped(shown, named.1)
                + closing + escaped(b, named.2),
        ) == words(a) + words(shown) + words(b),
{
    let (x, y, inner) = (escaped(a, named.0), escaped(b, named.2), escaped(shown, named.1));
    lemma_escaped_lacks(a, named.0);
    lemma_escaped_lacks(b, named.2);
    lemma_escaped_lacks(shown, named.1);
    law_decoding_undoes_escaping(shown, named.1);
    lemma_words_between(a, inner, shown, b, named.0, named.2);
    lemma_head(h);
    assert(lacks(h.tag, '>')) by {
        assert forall|i: int| 0 <= i < h.tag.len() implies #[trigger] h.tag[i] != '>' by {
            assert(head_text(h)[i] == h.tag[i]);
        }
    }
    let run = h.tag + h.attributes;
    assert(run.take(2) =~= h.tag);
    law_every_anchor_is_replaced(x, run, inner, closing, y);
    lemma_no_anchor(y);
    lemma_no_href(run + seq!['>']);
    assert(x + h.tag + h.attributes + seq!['>'] + inner + closing + y =~= x + run + seq!['>']
        + inner + closing + y);
}

/// An anchor with an address whose quotes are not closed is read as what it shows.
#[verifier::spinoff_prover]
pub proof fn law_unclosed_addresses_are_not_read(
    a: Seq<char>,
    h: Head,
    address: Seq<char>,
    quote: char,
    shown: Seq<char>,
    closing: Seq<char>,
    b: Seq<char>,
    named: (Seq<bool>, Seq<bool>, Seq<bool>),
)
    requires
        head_valid(h),
        quote == '"' || quote == '\'',
        lacks(address, '>'),
        lacks(address, quote),
        is_closing(closing),
    ensures
        message_words(
            escaped(a, named.0) + head_text(h) + seq![quote] + address + seq!['>'] + escaped(
                shown,
                named.1,
            ) + closing + escaped(b, named.2),
        ) == words(a) + words(shown) + words(b),
{
    let (x, y, inner) = (escaped(a, named.0), escaped(b, named.2), escaped(shown, named.1));
    lemma_escaped_lacks(a, named.0);
    lemma_escaped_lacks(b, named.2);
    lemma_escaped_lacks(shown, named.1);
    law_decoding_undoes_escaping(shown, named.1);
    lemma_words_between(a, inner, shown, b, named.0, named.2);
    lemma_head(h);
    let run = head_text(h) + seq![quote] + address;
    assert(run.take(2) =~= head_text(h).take(2));
    law_every_anchor_is_replaced(x, run, inner, closing, y);
    lemma_no_anchor(y);
    let behind = seq![quote] + address + seq!['>'];
    assert(run + seq!['>'] =~= head_text(h) + behind);
    lemma_target_of(h, behind);
    let rest = behind.skip(1);
    assert(rest =~= address + seq!['>']);
    lemma_out_is(rest, CharClass::Only(quote), rest.len() as int);
    assert(attribute_value(behind) is None);
    assert(x + head_text(h) + seq![quote] + address + seq!['>'] + inner + closing + y =~= x + run
        + seq!['>'] + inner + closing + y);
}

/// A complete tag leaves two spaces, whatever follows it, and what follows is treated as a
/// text of its own.
pub proof fn law_tags_leave_spaces(a: Seq<char>, m: Seq<char>, b: Seq<char>)
    requires
        lacks(a, '<'),
        lacks(a, '>'),
        lacks(m, '<'),
        lacks(m, '>'),
    ensures
        without_tags(a + seq!['<'] + m + seq!['>'] + b) == a + seq![' '] + seq![' ']
            + without_tags(b),
{
    law_plain_text_is_kept(a);
    lemma_inside_of_tag(m);
    let tag = seq!['<'] + m + seq!['>'];
    assert(tag.drop_last() =~= seq!['<'] + m);
    assert(tag.last() == '>');
    assert(without_tags(tag) == seq![' '].push(' '));
    assert(!inside_tag(tag));
    lemma_tags_divide(tag, b);
    lemma_tags_divide(a, tag + b);
    assert(a + seq!['<'] + m + seq!['>'] + b =~= a + (tag + b));
    assert(a + (seq![' '].push(' ') + without_tags(b)) =~= a + seq![' '] + seq![' ']
        + without_tags(b));
}

/// A tag that is not closed takes the rest of the text with it. One that is opened again
/// leaves a space for each opening, and a bracket that closes nothing leaves one too.
pub proof fn law_stray_brackets_leave_spaces(a: Seq<char>, m: Seq<char>, b: Seq<char>)
    requires
        lacks(a, '<'),
        lacks(a, '>'),
        lacks(m, '<'),
        lacks(m, '>'),
    ensures
        without_tags(a + seq!['<'] + m) == a + seq![' '],
        without_tags(a + seq!['>'] + b) == a + seq![' '] + without_tags(b),
        without_tags(seq!['<'] + m + (seq!['<'] + b)) == seq![' '] + without_tags(seq!['<'] + b),
{
    law_plain_text_is_kept(a);
    lemma_inside_of_tag(m);
    lemma_tags_divide(a, seq!['<'] + m);
    assert(a + seq!['<'] + m =~= a + (seq!['<'] + m));
    let closed = a + seq!['>'];
    assert(closed.drop_last() =~= a);
    assert(closed.last() == '>');
    assert(a.push(' ') =~= a + seq![' ']);
    lemma_tags_divide(closed, b);
    lemma_reopened(m, b);
}

/// A tag that is opened again goes on as the tag that was opened last.
proof fn lemma_reopened(m: Seq<char>, b: Seq<char>)
    requires
        lacks(m, '<'),
        lacks(m, '>'),
    ensures
        without_tags(seq!['<'] + m + (seq!['<'] + b)) == seq![' '] + without_tags(seq!['<'] + b),
        inside_tag(seq!['<'] + m + (seq!['<'] + b)) == inside_tag(seq!['<'] + b),
    decreases b.len(),
{
    lemma_inside_of_tag(m);
    let s = seq!['<'] + m + (seq!['<'] + b);
    let t = seq!['<'] + b;
    if b.len() == 0 {
        assert(s.drop_last() =~= seq!['<'] + m);
        assert(s.last() == '<');
        assert(t.drop_last() =~= Seq::<char>::empty());
        assert(without_tags(Seq::<char>::empty()) == Seq::<char>::empty());
        assert(without_tags(t) =~= seq![' ']);
        assert(without_tags(s) =~= seq![' '] + seq![' ']);
    } else {
        lemma_reopened(m, b.drop_last());
        assert(s.drop_last() =~= seq!['<'] + m + (seq!['<'] + b.drop_last()));
        assert(t.drop_last() =~= seq!['<'] + b.drop_last());
        assert(s.last() == b.last() && t.last() == b.last());
        let y = without_tags(t.drop_last());
        assert((seq![' '] + y).push(' ') =~= seq![' '] + y.push(' '));
        assert((seq![' '] + y).push(b.last()) =~= seq![' '] + y.push(b.last()));
    }
}

} // verus!
