//! The phrases that are spoken to a caller.

use crate::hosts::{
    collapse_whitespace, collapsed, extract_url_host, has_alnum, host_of_word, hostname_for_speech,
    spoken_host, token_has_spoken_content,
};
use crate::html::{
    anchors_replaced, decode_basic_html_entities, decoded, replace_html_anchor_tags,
    strip_html_tags, without_tags,
};
use crate::text::{
    chars_of, count_span_in, count_tail_in, decimal, decimal_text, join, join_texts, owned,
    push_all, push_text, span_in, split_words, string_of, tail_in, texts, trim, trimmed, words,
    CharClass,
};
use vstd::prelude::*;
use vstd::slice::slice_subrange;

verus! {

/// What is said when a caller enters a channel: its name, or its number where
/// the name is unknown or blank.
pub open spec fn channel_phrase(name: Option<Seq<char>>, id: nat) -> Seq<char> {
    let shown = trim(
        match name {
            Some(n) => n,
            None => seq![],
        },
        CharClass::Space,
    );
    if shown.len() == 0 {
        "You are now in channel "@ + decimal(id)
    } else {
        "You are now in the "@ + shown + " channel"@
    }
}

/// The spans of a word: opening punctuation, core, closing punctuation. A word
/// in which the two kinds of punctuation meet from both sides has no core.
pub open spec fn word_parts(word: Seq<char>) -> (Seq<char>, Seq<char>, Seq<char>) {
    let start = span_in(word, CharClass::LeadingPunctuation) as int;
    let closing = tail_in(word, CharClass::TrailingPunctuation) as int;
    let end = if closing == word.len() {
        start
    } else {
        word.len() - closing
    };
    if end < start {
        (word, seq![], seq![])
    } else {
        (word.take(start), word.subrange(start, end), word.skip(end))
    }
}

/// The spoken form of the host that a word links to.
pub open spec fn link_host(word: Seq<char>) -> Option<Seq<char>> {
    match host_of_word(word_parts(word).1) {
        Some(host) => Some(spoken_host(host)),
        None => None,
    }
}

/// A word as it is spoken: a link is reduced to its host.
pub open spec fn spoken_word(word: Seq<char>) -> Seq<char> {
    match link_host(word) {
        Some(host) => word_parts(word).0 + host + word_parts(word).2,
        None => word,
    }
}

/// The spoken hosts of the links among the words, in order.
pub open spec fn link_hosts(ws: Seq<Seq<char>>) -> Seq<Seq<char>>
    decreases ws.len(),
{
    if ws.len() == 0 {
        seq![]
    } else {
        match link_host(ws.last()) {
            Some(host) => link_hosts(ws.drop_last()).push(host),
            None => link_hosts(ws.drop_last()),
        }
    }
}

/// A word that is no link and holds a letter or a digit.
pub open spec fn is_plain_word(word: Seq<char>) -> bool {
    link_host(word) is None && has_alnum(word)
}

/// The number of plain words.
pub open spec fn plain_words(ws: Seq<Seq<char>>) -> nat
    decreases ws.len(),
{
    if ws.len() == 0 {
        0
    } else {
        plain_words(ws.drop_last()) + if is_plain_word(ws.last()) {
            1nat
        } else {
            0
        }
    }
}

/// The words of a message, anchors replaced by their targets, tags dropped and
/// entities decoded.
pub open spec fn message_words(raw: Seq<char>) -> Seq<Seq<char>> {
    words(decoded(without_tags(anchors_replaced(raw))))
}

/// The message with its links in spoken form and single spaces between words.
pub open spec fn normalized_message(raw: Seq<char>) -> Seq<char> {
    collapsed(join(message_words(raw).map_values(|w: Seq<char>| spoken_word(w)), " "@))
}

/// An enumeration in English, with a serial comma from three items on.
pub open spec fn human_list(items: Seq<Seq<char>>) -> Seq<char> {
    if items.len() == 2 {
        items[0] + " and "@ + items[1]
    } else if items.len() > 2 {
        join(items.drop_last(), ", "@) + ", and "@ + items.last()
    } else {
        join(items, ", "@)
    }
}

/// The name by which a sender is spoken of.
pub open spec fn sender_shown(name: Option<Seq<char>>) -> Seq<char> {
    match name {
        Some(n) if trim(n, CharClass::Space).len() > 0 => trim(n, CharClass::Space),
        _ => "Someone"@,
    }
}

/// What is said of a text message: the hosts of a message made of links alone,
/// the words of any other message that holds some.
pub open spec fn message_phrase(name: Option<Seq<char>>, raw: Seq<char>) -> Seq<char> {
    let sender = sender_shown(name);
    let hosts = link_hosts(message_words(raw));
    if plain_words(message_words(raw)) == 0 && hosts.len() > 0 {
        if hosts.len() == 1 {
            sender + " posted a link to "@ + hosts[0]
        } else {
            sender + " posted links to "@ + human_list(hosts)
        }
    } else if normalized_message(raw).len() == 0 {
        sender + " sent a message"@
    } else {
        sender + " says: "@ + normalized_message(raw)
    }
}

/// The view of an optional string.
pub open spec fn opt_text(s: Option<&str>) -> Option<Seq<char>> {
    match s {
        Some(t) => Some(t@),
        None => None,
    }
}

/// The phrase that announces a channel.
pub fn channel_announcement_phrase(channel_name: Option<&str>, channel_id: u32) -> (r: String)
    ensures
        r@ == channel_phrase(opt_text(channel_name), channel_id as nat),
{
    let name: Vec<char> = match channel_name {
        Some(n) => chars_of(n),
        None => Vec::new(),
    };
    let shown = trimmed(name.as_slice(), CharClass::Space);
    let mut out: Vec<char> = Vec::new();
    if shown.len() == 0 {
        push_text(&mut out, "You are now in channel ");
        let id = decimal_text(channel_id as u64);
        push_all(&mut out, id.as_slice());
    } else {
        push_text(&mut out, "You are now in the ");
        push_all(&mut out, shown);
        push_text(&mut out, " channel");
    }
    string_of(out.as_slice())
}

/// Splits a word into opening punctuation, core and closing punctuation.
pub fn split_token_affixes(token: &[char]) -> (r: (&[char], &[char], &[char]))
    ensures
        (r.0@, r.1@, r.2@) == word_parts(token@),
{
    let start: usize = count_span_in(token, CharClass::LeadingPunctuation);
    let closing: usize = count_tail_in(token, CharClass::TrailingPunctuation);
    let len: usize = token.len();
    let end: usize = if closing == len {
        start
    } else {
        len - closing
    };
    if end < start {
        return (token, slice_subrange(token, 0, 0), slice_subrange(token, 0, 0));
    }
    (
        slice_subrange(token, 0, start),
        slice_subrange(token, start, end),
        slice_subrange(token, end, len),
    )
}

/// The spoken form of a word, and the spoken host where the word is a link.
pub fn normalize_text_token_for_tts(token: &[char]) -> (r: (Vec<char>, Option<Vec<char>>))
    ensures
        r.0@ == spoken_word(token@),
        match r.1 {
            Some(h) => link_host(token@) == Some(h@),
            None => link_host(token@) is None,
        },
{
    let (prefix, core, suffix) = split_token_affixes(token);
    match extract_url_host(core) {
        Some(hostname) => {
            let host = hostname_for_speech(hostname.as_slice());
            let mut out = owned(prefix);
            push_all(&mut out, host.as_slice());
            push_all(&mut out, suffix);
            (out, Some(host))
        },
        None => (owned(token), None),
    }
}

/// What a text message holds for speech.
pub struct TextMessageTtsAnalysis {
    pub normalized_message: Vec<char>,
    pub link_hosts_for_speech: Vec<Vec<char>>,
    pub non_link_token_count: usize,
}

/// Analyses a text message.
pub fn analyze_text_message_for_tts(raw_message: &[char]) -> (r: TextMessageTtsAnalysis)
    ensures
        r.normalized_message@ == normalized_message(raw_message@),
        texts(r.link_hosts_for_speech@) == link_hosts(message_words(raw_message@)),
        r.non_link_token_count == plain_words(message_words(raw_message@)),
{
    let with_anchor_hrefs = replace_html_anchor_tags(raw_message);
    let without_html_tags = strip_html_tags(with_anchor_hrefs.as_slice());
    let decoded_entities = decode_basic_html_entities(without_html_tags.as_slice());
    let tokens = split_words(decoded_entities.as_slice());
    let ghost all = message_words(raw_message@);
    let mut normalized_tokens: Vec<Vec<char>> = Vec::new();
    let mut hosts: Vec<Vec<char>> = Vec::new();
    let mut count: usize = 0;
    let mut i: usize = 0;
    assert(all.take(0) == Seq::<Seq<char>>::empty());
    assert(texts(hosts@) == link_hosts(all.take(0)));
    assert(texts(normalized_tokens@) == all.take(0).map_values(|w: Seq<char>| spoken_word(w)));
    while i < tokens.len()
        invariant
            i <= tokens.len(),
            all == texts(tokens@),
            count <= i,
            count == plain_words(all.take(i as int)),
            texts(hosts@) == link_hosts(all.take(i as int)),
            texts(normalized_tokens@) == all.take(i as int).map_values(
                |w: Seq<char>| spoken_word(w),
            ),
        decreases tokens.len() - i,
    {
        let ghost spoken_before = texts(normalized_tokens@);
        let ghost hosts_before = texts(hosts@);
        proof {
            assert(all[i as int] == tokens@[i as int]@);
            assert(all.take(i + 1).drop_last() == all.take(i as int));
            assert(all.take(i + 1).last() == all[i as int]);
        }
        let (normalized, host) = normalize_text_token_for_tts(tokens[i].as_slice());
        match host {
            Some(h) => {
                hosts.push(h);
                assert(texts(hosts@) == hosts_before.push(h@));
            },
            None => {
                if token_has_spoken_content(normalized.as_slice()) {
                    count += 1;
                }
            },
        }
        normalized_tokens.push(normalized);
        assert(texts(normalized_tokens@) == spoken_before.push(spoken_word(all[i as int])));
        assert(texts(normalized_tokens@) == all.take(i + 1).map_values(
            |w: Seq<char>| spoken_word(w),
        ));
        i += 1;
    }
    assert(all.take(tokens.len() as int) == all);
    let joined = join_texts(&normalized_tokens, " ");
    TextMessageTtsAnalysis {
        normalized_message: collapse_whitespace(joined.as_slice()),
        link_hosts_for_speech: hosts,
        non_link_token_count: count,
    }
}

/// Joins items into an English enumeration.
pub fn join_human_list(items: &Vec<Vec<char>>) -> (r: Vec<char>)
    ensures
        r@ == human_list(texts(items@)),
{
    if items.len() <= 1 {
        return join_texts(items, ", ");
    }
    if items.len() == 2 {
        let mut out = owned(items[0].as_slice());
        push_text(&mut out, " and ");
        push_all(&mut out, items[1].as_slice());
        return out;
    }
    let ghost all = texts(items@);
    let last: usize = items.len() - 1;
    let mut out: Vec<char> = Vec::new();
    let mut i: usize = 0;
    assert(all.take(0) == Seq::<Seq<char>>::empty());
    while i < last
        invariant
            i <= last,
            last == items.len() - 1,
            all == texts(items@),
            out@ == join(all.take(i as int), ", "@),
        decreases last - i,
    {
        if i > 0 {
            push_text(&mut out, ", ");
        }
        push_all(&mut out, items[i].as_slice());
        proof {
            assert(all.take(i + 1).drop_last() == all.take(i as int));
            assert(all.take(i + 1).last() == items@[i as int]@);
            if i == 0 {
                assert(out@ == items@[0]@);
            }
        }
        i += 1;
    }
    assert(all.take(last as int) == all.drop_last());
    push_text(&mut out, ", and ");
    push_all(&mut out, items[last].as_slice());
    out
}

/// The phrase that reads out a text message.
pub fn text_message_phrase(sender_name: Option<&str>, raw_message: &str) -> (r: String)
    ensures
        r@ == message_phrase(opt_text(sender_name), raw_message@),
{
    let name: Vec<char> = match sender_name {
        Some(n) => chars_of(n),
        None => Vec::new(),
    };
    let shown = trimmed(name.as_slice(), CharClass::Space);
    let mut out: Vec<char> = if shown.len() > 0 {
        owned(shown)
    } else {
        chars_of("Someone")
    };
    assert(out@ == sender_shown(opt_text(sender_name)));
    let raw = chars_of(raw_message);
    let analysis = analyze_text_message_for_tts(raw.as_slice());
    let hosts = &analysis.link_hosts_for_speech;
    assert(hosts.len() == link_hosts(message_words(raw_message@)).len());
    if analysis.non_link_token_count == 0 && hosts.len() > 0 {
        if hosts.len() == 1 {
            assert(hosts@[0]@ == link_hosts(message_words(raw_message@))[0]);
            push_text(&mut out, " posted a link to ");
            push_all(&mut out, hosts[0].as_slice());
        } else {
            push_text(&mut out, " posted links to ");
            let list = join_human_list(hosts);
            push_all(&mut out, list.as_slice());
        }
    } else if analysis.normalized_message.len() == 0 {
        push_text(&mut out, " sent a message");
    } else {
        push_text(&mut out, " says: ");
        push_all(&mut out, analysis.normalized_message.as_slice());
    }
    string_of(out.as_slice())
}

} // verus!
