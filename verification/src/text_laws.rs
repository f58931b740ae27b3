//! What holds of the text functions for every input.

use crate::hosts::{collapsed, host_of_word, spoken_host, spoken_label, valid_hostname};
use crate::phrase::{message_phrase, message_words, normalized_message, sender_shown};
use crate::search::replace_all;
use crate::text::{
    in_class, is_space, join, lemma_span_in, lemma_span_out, lower, lower_all, pieces, span_in,
    span_out, trim_start, words, CharClass,
};
use vstd::prelude::*;

verus! {

/// White space is single, is a plain space, and stands at neither end.
pub open spec fn single_spaced(s: Seq<char>) -> bool {
    forall|i: int|
        0 <= i < s.len() && is_space(#[trigger] s[i]) ==> {
            &&& s[i] == ' '
            &&& 0 < i < s.len() - 1
            &&& !is_space(s[i + 1])
        }
}

/// A non-empty text without white space.
pub open spec fn is_word(w: Seq<char>) -> bool {
    &&& w.len() > 0
    &&& forall|i: int| 0 <= i < w.len() ==> !is_space(#[trigger] w[i])
}

/// No character of the text is `c`.
pub open spec fn lacks(s: Seq<char>, c: char) -> bool {
    forall|i: int| 0 <= i < s.len() ==> #[trigger] s[i] != c
}

/// `words` yields words.
pub proof fn lemma_words_are_words(s: Seq<char>)
    ensures
        forall|i: int| 0 <= i < words(s).len() ==> is_word(#[trigger] words(s)[i]),
    decreases s.len(),
{
    let k = CharClass::Space;
    let t = trim_start(s, k);
    let n = span_out(t, k);
    lemma_span_in(s, k);
    lemma_span_out(t, k);
    if t.len() > 0 {
        assert(t[0] == s[span_in(s, k) as int]);
        let w = t.take(n as int);
        let rest = t.skip(n as int);
        lemma_words_are_words(rest);
        assert(is_word(w)) by {
            assert forall|i: int| 0 <= i < w.len() implies !is_space(#[trigger] w[i]) by {
                assert(w[i] == t[i]);
            }
        }
        assert forall|i: int| 0 <= i < words(s).len() implies is_word(#[trigger] words(s)[i]) by {
            if i > 0 {
                assert(words(s)[i] == words(rest)[i - 1]);
            }
        }
    }
}

/// A joined text begins with its first part and the separator.
pub proof fn lemma_join_front(parts: Seq<Seq<char>>, sep: Seq<char>)
    requires
        parts.len() >= 2,
    ensures
        join(parts, sep) == parts[0] + sep + join(parts.drop_first(), sep),
    decreases parts.len(),
{
    let rest = parts.drop_first();
    if parts.len() == 2 {
        assert(parts.drop_last() == seq![parts[0]]);
        assert(join(parts.drop_last(), sep) == parts[0]);
        assert(rest == seq![parts[1]]);
    } else {
        lemma_join_front(parts.drop_last(), sep);
        assert(parts.drop_last().drop_first() == rest.drop_last());
        assert(join(rest, sep) == join(rest.drop_last(), sep) + sep + rest.last());
        assert(parts[0] + sep + (join(rest.drop_last(), sep) + sep + rest.last()) == parts[0] + sep
            + join(rest.drop_last(), sep) + sep + parts.last());
    }
}

/// Leading white space does not change the words.
pub proof fn lemma_words_skip_space(c: char, s: Seq<char>)
    requires
        is_space(c),
    ensures
        words(seq![c] + s) == words(s),
{
    let k = CharClass::Space;
    let t = seq![c] + s;
    assert(t.drop_first() == s);
    assert(span_in(t, k) == 1 + span_in(s, k));
    lemma_span_in(s, k);
    assert(trim_start(t, k) == trim_start(s, k));
}

/// The first word of a text that begins with a word and then ends or goes on
/// with white space.
pub proof fn lemma_words_first(w: Seq<char>, rest: Seq<char>)
    requires
        is_word(w),
        rest.len() > 0 ==> is_space(rest[0]),
    ensures
        words(w + rest) == seq![w] + words(rest),
{
    let k = CharClass::Space;
    let s = w + rest;
    assert(s[0] == w[0]);
    assert(span_in(s, k) == 0);
    assert(trim_start(s, k) == s);
    lemma_span_out(s, k);
    let n = span_out(s, k);
    if n < w.len() {
        assert(s[n as int] == w[n as int]);
    }
    if n > w.len() {
        assert(s[w.len() as int] == rest[0]);
    }
    assert(n == w.len());
    assert(s.take(n as int) == w);
    assert(s.skip(n as int) == rest);
}

/// Splitting words that were joined with spaces gives them back.
pub proof fn law_joined_words_are_recovered(ws: Seq<Seq<char>>)
    requires
        forall|i: int| 0 <= i < ws.len() ==> is_word(#[trigger] ws[i]),
    ensures
        words(join(ws, " "@)) == ws,
    decreases ws.len(),
{
    reveal_strlit(" ");
    assert(" "@ == seq![' ']);
    if ws.len() == 0 {
        assert(join(ws, " "@) == Seq::<char>::empty());
    } else if ws.len() == 1 {
        lemma_words_first(ws[0], seq![]);
        assert(ws[0] + Seq::<char>::empty() == ws[0]);
        assert(words(Seq::<char>::empty()) == Seq::<Seq<char>>::empty());
        assert(seq![ws[0]] + Seq::<Seq<char>>::empty() == ws);
    } else {
        let tail = ws.drop_first();
        assert forall|i: int| 0 <= i < tail.len() implies is_word(#[trigger] tail[i]) by {
            assert(tail[i] == ws[i + 1]);
        }
        law_joined_words_are_recovered(tail);
        lemma_join_front(ws, " "@);
        let rest = seq![' '] + join(tail, " "@);
        assert(ws[0] + seq![' '] + join(tail, " "@) == ws[0] + rest);
        lemma_words_first(ws[0], rest);
        lemma_words_skip_space(' ', join(tail, " "@));
        assert(seq![ws[0]] + tail == ws);
    }
}

/// Collapsing white space a second time changes nothing.
pub proof fn law_collapse_is_idempotent(s: Seq<char>)
    ensures
        collapsed(collapsed(s)) == collapsed(s),
{
    lemma_words_are_words(s);
    law_joined_words_are_recovered(words(s));
}

/// Words joined with spaces are single spaced.
proof fn lemma_join_single_spaced(ws: Seq<Seq<char>>)
    requires
        forall|i: int| 0 <= i < ws.len() ==> is_word(#[trigger] ws[i]),
    ensures
        single_spaced(join(ws, " "@)),
        ws.len() > 0 ==> {
            &&& join(ws, " "@).len() > 0
            &&& !is_space(join(ws, " "@)[0])
        },
    decreases ws.len(),
{
    reveal_strlit(" ");
    if ws.len() >= 2 {
        let tail = ws.drop_first();
        assert forall|i: int| 0 <= i < tail.len() implies is_word(#[trigger] tail[i]) by {
            assert(tail[i] == ws[i + 1]);
        }
        lemma_join_single_spaced(tail);
        lemma_join_front(ws, " "@);
        let s = join(ws, " "@);
        let r = join(tail, " "@);
        let n = ws[0].len() as int;
        assert(is_word(ws[0]));
        assert forall|i: int| 0 <= i < s.len() && is_space(#[trigger] s[i]) implies {
            &&& s[i] == ' '
            &&& 0 < i < s.len() - 1
            &&& !is_space(s[i + 1])
        } by {
            if i < n {
                assert(s[i] == ws[0][i]);
            } else if i == n {
                assert(s[i] == " "@[0]);
                assert(s[i + 1] == r[0]);
            } else {
                assert(s[i] == r[i - n - 1]);
                assert(s[i + 1] == r[i - n]);
            }
        }
        assert(s[0] == ws[0][0]);
    } else if ws.len() == 1 {
        assert(is_word(ws[0]));
    }
}

/// A collapsed text is single spaced.
pub proof fn law_collapsed_is_single_spaced(s: Seq<char>)
    ensures
        single_spaced(collapsed(s)),
{
    lemma_words_are_words(s);
    lemma_join_single_spaced(words(s));
}

/// A message is read out single spaced, whatever markup and white space it held.
pub proof fn law_normalized_message_is_single_spaced(raw: Seq<char>)
    ensures
        single_spaced(normalized_message(raw)),
{
    law_collapsed_is_single_spaced(
        join(message_words(raw).map_values(|w: Seq<char>| crate::phrase::spoken_word(w)), " "@),
    );
}

/// No word of a text holds a character that the text lacks.
proof fn lemma_words_lack(s: Seq<char>, c: char)
    requires
        lacks(s, c),
    ensures
        forall|i: int| 0 <= i < words(s).len() ==> lacks(#[trigger] words(s)[i], c),
    decreases s.len(),
{
    let k = CharClass::Space;
    let t = trim_start(s, k);
    let n = span_out(t, k);
    lemma_span_in(s, k);
    lemma_span_out(t, k);
    if t.len() > 0 {
        assert(t[0] == s[span_in(s, k) as int]);
        let rest = t.skip(n as int);
        lemma_words_lack(rest, c);
        assert forall|i: int| 0 <= i < words(s).len() implies lacks(#[trigger] words(s)[i], c) by {
            if i > 0 {
                assert(words(s)[i] == words(rest)[i - 1]);
            }
        }
    }
}

/// No piece holds the character it was split at.
proof fn lemma_pieces_lack(s: Seq<char>, c: char)
    ensures
        forall|i: int|
            0 <= i < pieces(s, CharClass::Only(c)).len() ==> lacks(
                #[trigger] pieces(s, CharClass::Only(c))[i],
                c,
            ),
    decreases s.len(),
{
    let k = CharClass::Only(c);
    let n = span_out(s, k);
    lemma_span_out(s, k);
    assert forall|j: int| 0 <= j < n implies #[trigger] s[j] != c by {
        assert(!in_class(k, s[j]));
    }
    if n < s.len() {
        let rest = s.skip(n as int + 1);
        lemma_pieces_lack(rest, c);
        assert forall|i: int| 0 <= i < pieces(s, k).len() implies lacks(
            #[trigger] pieces(s, k)[i],
            c,
        ) by {
            if i > 0 {
                assert(pieces(s, k)[i] == pieces(rest, k)[i - 1]);
            }
        }
    }
}

proof fn lemma_join_lacks(parts: Seq<Seq<char>>, sep: Seq<char>, c: char)
    requires
        lacks(sep, c),
        forall|i: int| 0 <= i < parts.len() ==> lacks(#[trigger] parts[i], c),
    ensures
        lacks(join(parts, sep), c),
    decreases parts.len(),
{
    if parts.len() > 1 {
        let front = parts.drop_last();
        assert forall|i: int| 0 <= i < front.len() implies lacks(#[trigger] front[i], c) by {
            assert(front[i] == parts[i]);
        }
        lemma_join_lacks(front, sep, c);
        assert(lacks(parts.last(), c));
    } else if parts.len() == 1 {
        assert(lacks(parts[0], c));
    }
}

proof fn lemma_replace_lacks(s: Seq<char>, pattern: Seq<char>, to: Seq<char>, c: char)
    requires
        lacks(to, c),
        lacks(s, c) || pattern == seq![c],
    ensures
        lacks(replace_all(s, pattern, to), c),
    decreases s.len(),
{
    if s.len() > 0 {
        if pattern.len() > 0 && pattern.is_prefix_of(s) {
            lemma_replace_lacks(s.skip(pattern.len() as int), pattern, to, c);
        } else {
            if pattern == seq![c] && s[0] == c {
                assert(pattern == s.subrange(0, 1));
            }
            lemma_replace_lacks(s.drop_first(), pattern, to, c);
        }
    }
}

/// A spoken host holds neither a dot nor a hyphen: both are spelled out.
pub proof fn law_spoken_host_is_spelled_out(host: Seq<char>)
    ensures
        lacks(spoken_host(host), '.'),
        lacks(spoken_host(host), '-'),
{
    reveal_strlit("-");
    reveal_strlit(" dash ");
    reveal_strlit(" dot ");
    reveal_strlit(" ");
    assert("-"@ == seq!['-']);
    let labels = pieces(host, CharClass::Only('.'));
    let spoken = labels.map_values(|l: Seq<char>| spoken_label(l));
    lemma_pieces_lack(host, '.');
    assert forall|i: int| 0 <= i < spoken.len() implies lacks(#[trigger] spoken[i], '.') && lacks(
        spoken[i],
        '-',
    ) by {
        assert(lacks(labels[i], '.'));
        lemma_replace_lacks(labels[i], "-"@, " dash "@, '.');
        lemma_replace_lacks(labels[i], "-"@, " dash "@, '-');
    }
    lemma_join_lacks(spoken, " dot "@, '.');
    lemma_join_lacks(spoken, " dot "@, '-');
    let joined = join(spoken, " dot "@);
    lemma_words_lack(joined, '.');
    lemma_words_lack(joined, '-');
    lemma_join_lacks(words(joined), " "@, '.');
    lemma_join_lacks(words(joined), " "@, '-');
}

/// A host that is recognised is a valid host name in lower case.
pub proof fn law_recognised_host_is_valid(word: Seq<char>)
    ensures
        host_of_word(word) matches Some(h) ==> valid_hostname(h) && lower_all(h) == h,
{
    if let Some(h) = host_of_word(word) {
        assert forall|s: Seq<char>| #[trigger] lower_all(lower_all(s)) == lower_all(s) by {
            assert forall|i: int| 0 <= i < s.len() implies lower_all(lower_all(s))[i] == lower_all(
                s,
            )[i] by {}
        }
    }
}

/// Every spoken message begins with the name of its sender and says more.
pub proof fn law_message_phrase_names_the_sender(name: Option<Seq<char>>, raw: Seq<char>)
    ensures
        sender_shown(name).len() > 0,
        sender_shown(name).is_prefix_of(message_phrase(name, raw)),
        message_phrase(name, raw).len() > sender_shown(name).len(),
{
    reveal_strlit("Someone");
    reveal_strlit(" posted a link to ");
    reveal_strlit(" posted links to ");
    reveal_strlit(" sent a message");
    reveal_strlit(" says: ");
    let p = message_phrase(name, raw);
    let sender = sender_shown(name);
    assert(p.subrange(0, sender.len() as int) == sender);
}

} // verus!
