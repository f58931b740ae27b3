//! What is said, for messages and channels of every kind.

use crate::escaping::escaped;
use crate::host_laws::{
    law_punctuation_stays_around_links, law_web_addresses_name_their_host,
    law_words_without_dots_are_spoken_as_written, lemma_labels_make_hosts, lemma_one_piece,
};
use crate::hosts::{
    collapsed, has_alnum, has_letter, spoken_host, spoken_label, valid_hostname, valid_label,
};
use crate::message_laws::{
    law_escaped_text_arrives_as_written, lemma_replace_keeps, lemma_words_divide,
};
use crate::phrase::{
    channel_phrase, human_list, link_host, link_hosts, message_phrase, message_words,
    normalized_message, plain_words, sender_shown, spoken_word,
};
use crate::search::replace_all;
use crate::text::{
    decimal, digit, in_class, is_ascii_alnum, is_ascii_letter, is_space, join, lemma_span_in,
    lemma_span_out, lemma_tail_in, lower_all, pieces, span_in, span_out, tail_in, trim, trim_start,
    words, CharClass,
};
use crate::text_laws::{
    is_word, lacks, law_collapse_is_idempotent, law_joined_words_are_recovered, lemma_join_front,
    lemma_words_are_words, lemma_words_first,
};
use vstd::prelude::*;

verus! {

/// Joining two lists joins what each is joined to.
pub proof fn law_joining_is_associative(p: Seq<Seq<char>>, q: Seq<Seq<char>>, sep: Seq<char>)
    requires
        p.len() > 0,
        q.len() > 0,
    ensures
        join(p + q, sep) == join(p, sep) + sep + join(q, sep),
    decreases q.len(),
{
    assert((p + q).drop_last() == p + q.drop_last());
    assert((p + q).last() == q.last());
    if q.len() == 1 {
        assert(p + q.drop_last() == p);
        assert(join(q, sep) == q.last());
    } else {
        law_joining_is_associative(p, q.drop_last(), sep);
        assert(join(p, sep) + sep + join(q.drop_last(), sep) + sep + q.last() == join(p, sep) + sep
            + (join(q.drop_last(), sep) + sep + q.last()));
    }
}

/// A separator between two texts divides their pieces.
pub proof fn law_separators_divide_pieces(a: Seq<char>, c: char, b: Seq<char>)
    ensures
        pieces(a + seq![c] + b, CharClass::Only(c)) == pieces(a, CharClass::Only(c)) + pieces(
            b,
            CharClass::Only(c),
        ),
        pieces(a, CharClass::Only(c)).len() > 0,
    decreases a.len(),
{
    let k = CharClass::Only(c);
    let whole = a + seq![c] + b;
    lemma_span_out(a, k);
    lemma_span_out(whole, k);
    let n = span_out(a, k) as int;
    let m = span_out(whole, k) as int;
    assert(whole[a.len() as int] == c);
    if n < a.len() {
        assert(whole[n] == a[n]);
    }
    assert(m <= n) by {
        if m > n {
            assert(!in_class(k, whole[n]));
        }
    }
    assert(m >= n) by {
        if m < n {
            assert(whole[m] == a[m]);
        }
    }
    if n < a.len() {
        let rest = a.skip(n + 1);
        law_separators_divide_pieces(rest, c, b);
        assert(whole.skip(n + 1) == rest + seq![c] + b);
        assert(whole.take(n) == a.take(n));
        assert(seq![a.take(n)] + (pieces(rest, k) + pieces(b, k)) == (seq![a.take(n)] + pieces(
            rest,
            k,
        )) + pieces(b, k));
    } else {
        assert(whole.take(n) == a);
        assert(whole.skip(n + 1) == b);
    }
}

/// The words of two texts with a word between them, collapsed.
proof fn lemma_collapse_around(x: Seq<char>, w: Seq<char>, y: Seq<char>)
    requires
        is_word(w),
        collapsed(x).len() > 0,
        collapsed(y).len() > 0,
    ensures
        collapsed(x + seq![' '] + w + seq![' '] + y) == collapsed(x) + seq![' '] + w + seq![' ']
            + collapsed(y),
{
    reveal_strlit(" ");
    assert(" "@ == seq![' ']);
    let s = x + seq![' '] + w + seq![' '] + y;
    lemma_words_divide(x + seq![' '] + w, ' ', y);
    lemma_words_divide(x, ' ', w);
    lemma_words_first(w, seq![]);
    assert(w + Seq::<char>::empty() == w);
    assert(words(Seq::<char>::empty()) == Seq::<Seq<char>>::empty());
    assert(seq![w] + Seq::<Seq<char>>::empty() == seq![w]);
    let (p, q) = (words(x), words(y));
    assert(words(s) == p + seq![w] + q);
    assert(p.len() > 0) by {
        if p.len() == 0 {
            assert(join(p, " "@) == Seq::<char>::empty());
        }
    }
    assert(q.len() > 0) by {
        if q.len() == 0 {
            assert(join(q, " "@) == Seq::<char>::empty());
        }
    }
    law_joining_is_associative(p + seq![w], q, " "@);
    law_joining_is_associative(p, seq![w], " "@);
    assert(join(seq![w], " "@) == w);
}

/// A dot in a host is spoken as a word of its own, between what is spoken of the two
/// sides.
pub proof fn law_dots_are_spoken(a: Seq<char>, b: Seq<char>)
    requires
        spoken_host(a).len() > 0,
        spoken_host(b).len() > 0,
    ensures
        spoken_host(a + seq!['.'] + b) == spoken_host(a) + " dot "@ + spoken_host(b),
{
    reveal_strlit(" dot ");
    let k = CharClass::Only('.');
    let f = |l: Seq<char>| spoken_label(l);
    law_separators_divide_pieces(a, '.', b);
    law_separators_divide_pieces(b, '.', b);
    let (p, q) = (pieces(a, k).map_values(f), pieces(b, k).map_values(f));
    assert((pieces(a, k) + pieces(b, k)).map_values(f) == p + q);
    law_joining_is_associative(p, q, " dot "@);
    let (x, y) = (join(p, " dot "@), join(q, " dot "@));
    let dot = seq!['d', 'o', 't'];
    assert(" dot "@ == seq![' '] + dot + seq![' ']);
    assert(x + " dot "@ + y == x + seq![' '] + dot + seq![' '] + y);
    assert(is_word(dot));
    lemma_collapse_around(x, dot, y);
    assert(collapsed(x) + seq![' '] + dot + seq![' '] + collapsed(y) == collapsed(x) + " dot "@
        + collapsed(y));
}

/// A character is replaced apart from what stands around it.
proof fn lemma_replace_one(a: Seq<char>, c: char, b: Seq<char>, to: Seq<char>)
    ensures
        replace_all(a + seq![c] + b, seq![c], to) == replace_all(a, seq![c], to) + to
            + replace_all(b, seq![c], to),
    decreases a.len(),
{
    let p = seq![c];
    let s = a + p + b;
    let y = replace_all(b, p, to);
    if a.len() == 0 {
        assert(s.subrange(0, 1) == p);
        assert(s.skip(1) == b);
        assert(replace_all(a, p, to) == Seq::<char>::empty());
        assert(Seq::<char>::empty() + to + y == to + y);
    } else {
        let rest = a.drop_first();
        lemma_replace_one(rest, c, b, to);
        let x = replace_all(rest, p, to);
        assert(s.subrange(0, 1) == a.subrange(0, 1));
        assert(s.skip(1) == rest + p + b);
        assert(s.drop_first() == rest + p + b);
        assert(a.skip(1) == rest);
        assert(to + (x + to + y) == (to + x) + to + y);
        assert(seq![a[0]] + (x + to + y) == (seq![a[0]] + x) + to + y);
    }
}

/// A hyphen in a label is spoken as a word of its own, between what is spoken of the two
/// sides.
pub proof fn law_hyphens_are_spoken(a: Seq<char>, b: Seq<char>)
    requires
        lacks(a, '.'),
        lacks(b, '.'),
        spoken_host(a).len() > 0,
        spoken_host(b).len() > 0,
    ensures
        spoken_host(a + seq!['-'] + b) == spoken_host(a) + " dash "@ + spoken_host(b),
{
    reveal_strlit("-");
    reveal_strlit(" dash ");
    assert("-"@ == seq!['-']);
    lemma_spoken_label(a);
    lemma_spoken_label(b);
    lemma_spoken_label(a + seq!['-'] + b);
    lemma_replace_one(a, '-', b, " dash "@);
    let (x, y) = (spoken_label(a), spoken_label(b));
    let dash = seq!['d', 'a', 's', 'h'];
    assert(" dash "@ == seq![' '] + dash + seq![' ']);
    assert(x + " dash "@ + y == x + seq![' '] + dash + seq![' '] + y);
    assert(is_word(dash));
    lemma_collapse_around(x, dash, y);
    assert(collapsed(x) + seq![' '] + dash + seq![' '] + collapsed(y) == collapsed(x)
        + " dash "@ + collapsed(y));
}

/// A host of one label is spoken as its label.
proof fn lemma_spoken_label(l: Seq<char>)
    requires
        lacks(l, '.'),
    ensures
        spoken_host(l) == collapsed(spoken_label(l)),
{
    lemma_one_piece(l, '.');
    let f = |l: Seq<char>| spoken_label(l);
    assert(seq![l].map_values(f) == seq![spoken_label(l)]);
    assert(join(seq![spoken_label(l)], " dot "@) == spoken_label(l));
}

/// A word without dots and hyphens is spoken as it is written.
pub proof fn law_plain_labels_are_spoken_as_written(l: Seq<char>)
    requires
        is_word(l),
        lacks(l, '.'),
        lacks(l, '-'),
    ensures
        spoken_host(l) == l,
{
    reveal_strlit("-");
    lemma_spoken_label(l);
    lemma_replace_keeps(l, "-"@, " dash "@);
    lemma_words_first(l, seq![]);
    assert(l + Seq::<char>::empty() == l);
    assert(words(Seq::<char>::empty()) == Seq::<Seq<char>>::empty());
    assert(seq![l] + Seq::<Seq<char>>::empty() == seq![l]);
    assert(join(seq![l], " "@) == l);
}

/// A part of a message: a word without a dot inside it, or a link to a host.
pub ghost enum Part {
    Word(Seq<char>),
    Link(Seq<char>),
}

/// A mark that may close a word.
pub open spec fn is_mark(c: char) -> bool {
    c == '.' || c == ',' || c == '!' || c == '?' || c == ';' || c == ':' || c == ')' || c == '"'
        || c == '\''
}

/// A word that begins and ends with a letter or a digit, but for marks behind it, and has a
/// dot at most among those.
pub open spec fn ends_in_marks(w: Seq<char>, n: int) -> bool {
    &&& 0 < n <= w.len()
    &&& is_ascii_alnum(w[0])
    &&& is_ascii_alnum(w[n - 1])
    &&& lacks(w.take(n), '.')
    &&& forall|i: int| n <= i < w.len() ==> is_mark(#[trigger] w[i])
}

/// A part that a message can hold. The host of a link is valid, in lower case, and has no
/// `www.` in front.
pub open spec fn part_valid(p: Part) -> bool {
    match p {
        Part::Word(w) => is_word(w) && (lacks(w, '.') || exists|n: int| ends_in_marks(w, n)),
        Part::Link(h) => valid_hostname(h) && lower_all(h) == h && !"www."@.is_prefix_of(h),
    }
}

/// A part as it is written.
pub open spec fn part_written(p: Part) -> Seq<char> {
    match p {
        Part::Word(w) => w,
        Part::Link(h) => "https://"@ + h,
    }
}

/// A part as it is heard.
pub open spec fn part_heard(p: Part) -> Seq<char> {
    match p {
        Part::Word(w) => w,
        Part::Link(h) => spoken_host(h),
    }
}

/// A message of parts, as it is sent.
pub open spec fn message_of(parts: Seq<Part>, named: Seq<bool>) -> Seq<char> {
    escaped(join(parts.map_values(|p: Part| part_written(p)), " "@), named)
}

/// The words of a text that holds something visible.
proof fn lemma_visible_text_has_words(s: Seq<char>)
    requires
        s.len() > 0,
        !is_space(s[0]),
    ensures
        words(s).len() > 0,
        collapsed(s).len() > 0,
{
    let k = CharClass::Space;
    assert(span_in(s, k) == 0);
    assert(trim_start(s, k) == s);
    assert(words(s).len() > 0);
    lemma_words_are_words(s);
    assert(is_word(words(s)[0]));
    if words(s).len() > 1 {
        lemma_join_front(words(s), " "@);
    }
}

/// A valid host is spoken of, and its spoken form is collapsed.
proof fn lemma_hosts_are_heard(h: Seq<char>)
    requires
        valid_hostname(h),
    ensures
        spoken_host(h).len() > 0,
        collapsed(spoken_host(h)) == spoken_host(h),
{
    reveal_strlit("-");
    let k = CharClass::Only('.');
    let labels = pieces(h, k);
    let f = |l: Seq<char>| spoken_label(l);
    let spoken = labels.map_values(f);
    let first = labels[0];
    assert(valid_label(first));
    assert("-"@ == seq!['-']);
    assert(!"-"@.is_prefix_of(first)) by {
        if "-"@.is_prefix_of(first) {
            assert(first.subrange(0, 1)[0] == first[0]);
        }
    }
    assert(spoken_label(first)[0] == first[0]);
    assert(spoken[0] == spoken_label(first));
    lemma_join_front(spoken, " dot "@);
    let joined = join(spoken, " dot "@);
    assert(joined[0] == first[0]);
    assert(is_ascii_alnum(first[0]));
    lemma_visible_text_has_words(joined);
    law_collapse_is_idempotent(joined);
}

/// A part is a word of a message, is taken for what it is, and is heard.
proof fn lemma_part(p: Part)
    requires
        part_valid(p),
    ensures
        is_word(part_written(p)),
        spoken_word(part_written(p)) == part_heard(p),
        p is Link ==> link_host(part_written(p)) == Some(part_heard(p)),
        p is Word ==> link_host(part_written(p)) is None,
        part_heard(p).len() > 0,
        collapsed(part_heard(p)) == part_heard(p),
{
    reveal_strlit("https://");
    let w = part_written(p);
    let nothing = Seq::<char>::empty();
    match p {
        Part::Word(w) => {
            if lacks(w, '.') {
                law_words_without_dots_are_spoken_as_written(w);
            } else {
                let n = choose|n: int| ends_in_marks(w, n);
                let (core, closing) = (w.take(n), w.skip(n));
                assert(core.last() == w[n - 1]);
                assert forall|i: int| 0 <= i < closing.len() implies is_mark(
                    #[trigger] closing[i],
                ) by {
                    assert(closing[i] == w[n + i]);
                }
                law_words_without_dots_are_spoken_as_written(core);
                law_punctuation_stays_around_links(nothing, core, closing);
                assert(nothing + core + closing =~= w);
            }
            lemma_words_first(w, nothing);
            assert(w + nothing == w);
            assert(words(nothing) == Seq::<Seq<char>>::empty());
            assert(seq![w] + Seq::<Seq<char>>::empty() == seq![w]);
            assert(join(seq![w], " "@) == w);
        },
        Part::Link(h) => {
            lemma_labels_make_hosts(h);
            law_web_addresses_name_their_host("https://"@, nothing, h, nothing);
            assert("https://"@ + nothing + h + nothing == w);
            assert("https://"@.len() == 8);
            assert(w[0] == 'h');
            assert(w.last() == h.last());
            law_punctuation_stays_around_links(nothing, w, nothing);
            assert(nothing + w + nothing == w);
            lemma_hosts_are_heard(h);
            assert(link_host(w) == Some(spoken_host(h)));
            assert(nothing + spoken_host(h) + nothing == spoken_host(h));
            assert forall|i: int| 0 <= i < w.len() implies !is_space(#[trigger] w[i]) by {
                if i >= 8 {
                    assert(w[i] == h[i - 8]);
                } else {
                    assert(w[i] == "https://"@[i]);
                }
            }
        },
    }
}

/// Collapsed texts joined with spaces are collapsed.
proof fn lemma_join_is_collapsed(ps: Seq<Seq<char>>)
    requires
        forall|i: int|
            0 <= i < ps.len() ==> (#[trigger] ps[i]).len() > 0 && collapsed(ps[i]) == ps[i],
    ensures
        collapsed(join(ps, " "@)) == join(ps, " "@),
        ps.len() > 0 ==> join(ps, " "@).len() > 0,
    decreases ps.len(),
{
    reveal_strlit(" ");
    assert(" "@ == seq![' ']);
    if ps.len() == 0 {
        assert(join(ps, " "@) == Seq::<char>::empty());
        assert(words(Seq::<char>::empty()) == Seq::<Seq<char>>::empty());
    } else if ps.len() == 1 {
        assert(join(ps, " "@) == ps[0]);
    } else {
        let front = ps.drop_last();
        assert forall|i: int| 0 <= i < front.len() implies (#[trigger] front[i]).len() > 0
            && collapsed(front[i]) == front[i] by {
            assert(front[i] == ps[i]);
        }
        lemma_join_is_collapsed(front);
        let (x, y) = (join(front, " "@), ps.last());
        assert(y == ps[ps.len() - 1]);
        lemma_words_divide(x, ' ', y);
        assert(words(x).len() > 0) by {
            if words(x).len() == 0 {
                assert(join(words(x), " "@) == Seq::<char>::empty());
            }
        }
        assert(words(y).len() > 0) by {
            if words(y).len() == 0 {
                assert(join(words(y), " "@) == Seq::<char>::empty());
            }
        }
        law_joining_is_associative(words(x), words(y), " "@);
    }
}

/// A word that holds a letter or a digit.
pub open spec fn says_something(w: Seq<char>) -> bool {
    exists|i: int|
        0 <= i < w.len() && {
            let c = #[trigger] w[i];
            'a' <= c <= 'z' || 'A' <= c <= 'Z' || '0' <= c <= '9'
        }
}

/// Some part is a word that says something.
pub open spec fn has_content(parts: Seq<Part>) -> bool {
    exists|i: int|
        0 <= i < parts.len() && (#[trigger] parts[i]) is Word && says_something(parts[i]->Word_0)
}

/// The hosts of the links among parts, as they are heard, in order.
pub open spec fn hosts_heard(parts: Seq<Part>) -> Seq<Seq<char>>
    decreases parts.len(),
{
    if parts.len() == 0 {
        seq![]
    } else {
        match parts[0] {
            Part::Link(h) => seq![spoken_host(h)] + hosts_heard(parts.drop_first()),
            Part::Word(_) => hosts_heard(parts.drop_first()),
        }
    }
}

/// The hosts heard of parts, from the end.
proof fn lemma_hosts_heard(parts: Seq<Part>)
    requires
        parts.len() > 0,
    ensures
        hosts_heard(parts) == (match parts.last() {
            Part::Link(h) => hosts_heard(parts.drop_last()).push(spoken_host(h)),
            Part::Word(_) => hosts_heard(parts.drop_last()),
        }),
    decreases parts.len(),
{
    if parts.len() == 1 {
        assert(parts.drop_first() == Seq::<Part>::empty());
        assert(parts.drop_last() == Seq::<Part>::empty());
        assert(hosts_heard(parts.drop_first()) == Seq::<Seq<char>>::empty());
        if let Part::Link(h) = parts[0] {
            assert(seq![spoken_host(h)] + Seq::<Seq<char>>::empty()
                == Seq::<Seq<char>>::empty().push(spoken_host(h)));
        }
    } else {
        let rest = parts.drop_first();
        lemma_hosts_heard(rest);
        assert(rest.drop_last() == parts.drop_last().drop_first());
        assert(parts.drop_last()[0] == parts[0]);
        let middle = hosts_heard(rest.drop_last());
        if let Part::Link(h) = parts[0] {
            if let Part::Link(g) = parts.last() {
                assert(seq![spoken_host(h)] + middle.push(spoken_host(g)) == (
                seq![spoken_host(h)] + middle).push(spoken_host(g)));
            }
        }
    }
}

/// The links and plain words among parts.
proof fn lemma_counted(parts: Seq<Part>)
    requires
        forall|i: int| 0 <= i < parts.len() ==> part_valid(#[trigger] parts[i]),
    ensures
        link_hosts(parts.map_values(|p: Part| part_written(p))) == hosts_heard(parts),
        plain_words(parts.map_values(|p: Part| part_written(p))) > 0 <==> has_content(parts),
    decreases parts.len(),
{
    let f = |p: Part| part_written(p);
    let ws = parts.map_values(f);
    if parts.len() > 0 {
        let front = parts.drop_last();
        let last = parts.last();
        assert(last == parts[parts.len() - 1]);
        assert forall|i: int| 0 <= i < front.len() implies part_valid(#[trigger] front[i]) by {
            assert(front[i] == parts[i]);
        }
        lemma_counted(front);
        lemma_part(last);
        lemma_hosts_heard(parts);
        assert(ws.drop_last() == front.map_values(f));
        assert(ws.last() == part_written(last));
        if let Part::Word(w) = last {
            assert(has_alnum(w) <==> says_something(w)) by {
                if has_alnum(w) {
                    let i = choose|i: int| 0 <= i < w.len() && is_ascii_alnum(#[trigger] w[i]);
                    assert(is_ascii_alnum(w[i]));
                }
                if says_something(w) {
                    let i = choose|i: int|
                        0 <= i < w.len() && {
                            let c = #[trigger] w[i];
                            'a' <= c <= 'z' || 'A' <= c <= 'Z' || '0' <= c <= '9'
                        };
                    assert(is_ascii_alnum(w[i]));
                }
            }
        }
        if has_content(parts) {
            let i = choose|i: int|
                0 <= i < parts.len() && (#[trigger] parts[i]) is Word && says_something(
                    parts[i]->Word_0,
                );
            if i < front.len() {
                assert(front[i] == parts[i]);
            }
        }
        if has_content(front) {
            let i = choose|i: int|
                0 <= i < front.len() && (#[trigger] front[i]) is Word && says_something(
                    front[i]->Word_0,
                );
            assert(parts[i] == front[i]);
        }
    }
}

/// A message of words and links is read out in full: its words as they are written and
/// its links as their hosts, in order, with single spaces between. A message of links in
/// which no word says anything is spoken of by its links alone, and an empty one as a
/// message.
#[verifier::spinoff_prover]
pub proof fn law_messages_are_read_out(
    name: Option<Seq<char>>,
    parts: Seq<Part>,
    named: Seq<bool>,
)
    requires
        forall|i: int| 0 <= i < parts.len() ==> part_valid(#[trigger] parts[i]),
    ensures
        ({
            let phrase = message_phrase(name, message_of(parts, named));
            let heard = parts.map_values(|p: Part| part_heard(p));
            let hosts = hosts_heard(parts);
            let sender = sender_shown(name);
            &&& parts.len() == 0 ==> phrase == sender + " sent a message"@
            &&& parts.len() > 0 && (has_content(parts) || hosts.len() == 0) ==> phrase == sender
                + " says: "@ + join(heard, " "@)
            &&& !has_content(parts) && hosts.len() == 1 ==> phrase == sender
                + " posted a link to "@ + hosts[0]
            &&& !has_content(parts) && hosts.len() > 1 ==> phrase == sender
                + " posted links to "@ + human_list(hosts)
        }),
{
    let f = |p: Part| part_written(p);
    let g = |p: Part| part_heard(p);
    let ws = parts.map_values(f);
    let heard = parts.map_values(g);
    assert forall|i: int| 0 <= i < ws.len() implies is_word(#[trigger] ws[i]) by {
        lemma_part(parts[i]);
    }
    assert forall|i: int| 0 <= i < heard.len() implies (#[trigger] heard[i]).len() > 0
        && collapsed(heard[i]) == heard[i] by {
        lemma_part(parts[i]);
    }
    law_joined_words_are_recovered(ws);
    law_escaped_text_arrives_as_written(join(ws, " "@), named);
    let raw = message_of(parts, named);
    assert(message_words(raw) == ws);
    assert(ws.map_values(|w: Seq<char>| spoken_word(w)) == heard) by {
        assert forall|i: int| 0 <= i < ws.len() implies spoken_word(ws[i])
            == #[trigger] heard[i] by {
            lemma_part(parts[i]);
        }
    }
    lemma_join_is_collapsed(heard);
    assert(normalized_message(raw) == join(heard, " "@));
    lemma_counted(parts);
    if parts.len() == 0 {
        assert(join(heard, " "@).len() == 0);
    }
}

/// An enumeration names every item, with `and` before the last of several and a comma
/// after each but the last of three or more.
pub proof fn law_enumerations_name_every_item(
    items: Seq<Seq<char>>,
    a: Seq<char>,
    b: Seq<char>,
    c: Seq<char>,
)
    ensures
        human_list(seq![a]) == a,
        human_list(seq![a, b]) == a + " and "@ + b,
        human_list(seq![a, b, c]) == a + ", "@ + b + ", and "@ + c,
        items.len() >= 3 ==> human_list(seq![a] + items) == a + ", "@ + human_list(items),
{
    reveal_with_fuel(join, 3);
    let two = seq![a, b, c].drop_last();
    assert(two == seq![a, b]);
    assert(two.drop_last() == seq![a]);
    if items.len() >= 3 {
        let front = seq![a] + items.drop_last();
        assert((seq![a] + items).drop_last() == front);
        law_joining_is_associative(seq![a], items.drop_last(), ", "@);
        assert(a + ", "@ + join(items.drop_last(), ", "@) + ", and "@ + items.last() == a + ", "@
            + (join(items.drop_last(), ", "@) + ", and "@ + items.last()));
    }
}

/// White space around a text does not count.
pub proof fn lemma_trim_padded(before: Seq<char>, core: Seq<char>, after: Seq<char>)
    requires
        forall|i: int| 0 <= i < before.len() ==> is_space(#[trigger] before[i]),
        forall|i: int| 0 <= i < after.len() ==> is_space(#[trigger] after[i]),
        core.len() > 0 ==> !is_space(core[0]) && !is_space(core.last()),
    ensures
        trim(before + core + after, CharClass::Space) == core,
{
    let k = CharClass::Space;
    let s = before + core + after;
    lemma_span_in(s, k);
    let n = span_in(s, k) as int;
    let b = before.len() as int;
    if n < b {
        assert(s[n] == before[n]);
    }
    if core.len() > 0 {
        assert(s[b] == core[0]);
        assert(n == b);
        let t = trim_start(s, k);
        assert(t == core + after);
        lemma_tail_in(t, k);
        let m = t.len() - tail_in(t, k);
        assert(t[core.len() - 1] == core.last());
        if m > core.len() {
            assert(t[m - 1] == after[m - 1 - core.len()]);
        }
        if m < core.len() {
            assert(in_class(k, t[core.len() - 1]));
        }
        assert(t.take(m) == core);
    } else {
        if n < s.len() {
            assert(s[n] == after[n - b]);
        }
        assert(trim_start(s, k).len() == 0);
        assert(trim(s, k) == core);
    }
}

/// A sender is called by name, without the white space around it; one without a name is
/// someone.
pub proof fn law_senders_are_called_by_name(
    before: Seq<char>,
    core: Seq<char>,
    after: Seq<char>,
)
    requires
        forall|i: int| 0 <= i < before.len() ==> is_space(#[trigger] before[i]),
        forall|i: int| 0 <= i < after.len() ==> is_space(#[trigger] after[i]),
        core.len() > 0 ==> !is_space(core[0]) && !is_space(core.last()),
    ensures
        core.len() > 0 ==> sender_shown(Some(before + core + after)) == core,
        core.len() == 0 ==> sender_shown(Some(before + core + after)) == "Someone"@,
        sender_shown(None) == "Someone"@,
{
    lemma_trim_padded(before, core, after);
}

/// A channel is announced by name, without the white space around it; one without a name
/// by its number.
pub proof fn law_channels_are_announced_by_name(
    before: Seq<char>,
    core: Seq<char>,
    after: Seq<char>,
    id: nat,
)
    requires
        forall|i: int| 0 <= i < before.len() ==> is_space(#[trigger] before[i]),
        forall|i: int| 0 <= i < after.len() ==> is_space(#[trigger] after[i]),
        core.len() > 0 ==> !is_space(core[0]) && !is_space(core.last()),
    ensures
        core.len() > 0 ==> channel_phrase(Some(before + core + after), id)
            == "You are now in the "@ + core + " channel"@,
        core.len() == 0 ==> channel_phrase(Some(before + core + after), id)
            == "You are now in channel "@ + decimal(id),
        channel_phrase(None, id) == "You are now in channel "@ + decimal(id),
{
    lemma_trim_padded(before, core, after);
    let nothing = Seq::<char>::empty();
    lemma_trim_padded(nothing, nothing, nothing);
    assert(nothing + nothing + nothing == nothing);
}

/// The number that digits write.
pub open spec fn value_of(digits: Seq<char>) -> int
    decreases digits.len(),
{
    if digits.len() == 0 {
        0
    } else {
        value_of(digits.drop_last()) * 10 + (digits.last() as int - '0' as int)
    }
}

/// A number is written in digits, without leading zeros, and they give it back.
pub proof fn law_digits_write_the_number(n: nat)
    ensures
        value_of(decimal(n)) == n,
        decimal(n).len() > 0,
        forall|i: int| 0 <= i < decimal(n).len() ==> '0' <= #[trigger] decimal(n)[i] <= '9',
        n > 0 ==> decimal(n)[0] != '0',
        n == 0 ==> decimal(n) == seq!['0'],
    decreases n,
{
    let s = decimal(n);
    assert(digit(n % 10) as int == 48 + n % 10);
    if n < 10 {
        assert(s.drop_last() == Seq::<char>::empty());
        assert(value_of(s.drop_last()) == 0);
    } else {
        law_digits_write_the_number(n / 10);
        assert(s.drop_last() == decimal(n / 10));
        assert(s[0] == decimal(n / 10)[0]);
    }
}

/// A label of a host: letters, digits and hyphens, with a hyphen at neither end.
pub open spec fn is_label(l: Seq<char>) -> bool {
    &&& l.len() > 0
    &&& l[0] != '-'
    &&& l.last() != '-'
    &&& forall|i: int|
        0 <= i < l.len() ==> {
            let c = #[trigger] l[i];
            'a' <= c <= 'z' || 'A' <= c <= 'Z' || '0' <= c <= '9' || c == '-'
        }
}

/// The pieces of texts that were joined by a separator none of them holds.
proof fn lemma_pieces_of_joined(labels: Seq<Seq<char>>, c: char)
    requires
        labels.len() > 0,
        forall|i: int| 0 <= i < labels.len() ==> lacks(#[trigger] labels[i], c),
    ensures
        pieces(join(labels, seq![c]), CharClass::Only(c)) == labels,
    decreases labels.len(),
{
    let last = labels.last();
    assert(last == labels[labels.len() - 1]);
    lemma_one_piece(last, c);
    if labels.len() == 1 {
        assert(labels == seq![last]);
    } else {
        let front = labels.drop_last();
        assert forall|i: int| 0 <= i < front.len() implies lacks(#[trigger] front[i], c) by {
            assert(front[i] == labels[i]);
        }
        lemma_pieces_of_joined(front, c);
        law_separators_divide_pieces(join(front, seq![c]), c, last);
        assert(front + seq![last] == labels);
    }
}

/// A host is made of two or more labels with dots between them, and has a letter in the
/// last: a number, an address of numbers and a name with anything else in it are none.
pub proof fn law_hosts_are_made_of_labels(labels: Seq<Seq<char>>)
    requires
        labels.len() > 0,
        forall|i: int| 0 <= i < labels.len() ==> lacks(#[trigger] labels[i], '.'),
    ensures
        valid_hostname(join(labels, seq!['.'])) <==> {
            &&& labels.len() >= 2
            &&& forall|i: int| 0 <= i < labels.len() ==> is_label(#[trigger] labels[i])
            &&& exists|j: int|
                0 <= j < labels.last().len() && {
                    let c = #[trigger] labels.last()[j];
                    'a' <= c <= 'z' || 'A' <= c <= 'Z'
                }
        },
{
    lemma_pieces_of_joined(labels, '.');
    let last = labels.last();
    assert(forall|i: int|
        0 <= i < labels.len() ==> valid_label(#[trigger] labels[i]) == is_label(labels[i])) by {
        assert forall|i: int| 0 <= i < labels.len() implies valid_label(#[trigger] labels[i])
            == is_label(labels[i]) by {
            lemma_label(labels[i]);
        }
    }
    if has_letter(last) {
        let j = choose|j: int| 0 <= j < last.len() && is_ascii_letter(#[trigger] last[j]);
        assert(is_ascii_letter(last[j]));
    }
    if exists|j: int|
        0 <= j < last.len() && {
            let c = #[trigger] last[j];
            'a' <= c <= 'z' || 'A' <= c <= 'Z'
        } {
        let j = choose|j: int|
            0 <= j < last.len() && {
                let c = #[trigger] last[j];
                'a' <= c <= 'z' || 'A' <= c <= 'Z'
            };
        assert(is_ascii_letter(last[j]));
    }
}

proof fn lemma_label(l: Seq<char>)
    ensures
        valid_label(l) == is_label(l),
{
    if is_label(l) {
        assert forall|i: int| 0 <= i < l.len() implies is_ascii_alnum(#[trigger] l[i]) || l[i]
            == '-' by {}
    }
    if valid_label(l) {
        assert forall|i: int| 0 <= i < l.len() implies {
            let c = #[trigger] l[i];
            'a' <= c <= 'z' || 'A' <= c <= 'Z' || '0' <= c <= '9' || c == '-'
        } by {
            assert(is_ascii_alnum(l[i]) || l[i] == '-');
        }
    }
}

} // verus!
