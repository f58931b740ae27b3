//! How links are recognised and spoken.

use crate::hosts::{
    authority_host, behind_scheme, host_of_word, normalized_host, valid_hostname, valid_label,
};
use crate::phrase::{link_host, spoken_word, word_parts};
use crate::search::occurs;
use crate::text::{
    after_last, before_first, in_class, is_ascii_alnum, lemma_span_in, lemma_span_out,
    lemma_tail_in, lemma_tail_out, lower, lower_all, pieces, span_in, span_out, tail_in, tail_out,
    trim, trim_start, CharClass,
};
use crate::text_laws::lacks;
use vstd::prelude::*;

verus! {

/// A text of letters, digits, hyphens and dots that neither begins nor ends with a hyphen
/// or a dot.
pub open spec fn host_like(s: Seq<char>) -> bool {
    &&& s.len() > 0
    &&& is_ascii_alnum(s[0])
    &&& is_ascii_alnum(s.last())
    &&& forall|i: int|
        0 <= i < s.len() ==> is_ascii_alnum(#[trigger] s[i]) || s[i] == '-' || s[i] == '.'
}

/// Valid labels between dots make a host-like text.
pub proof fn lemma_labels_make_hosts(s: Seq<char>)
    requires
        forall|i: int|
            0 <= i < pieces(s, CharClass::Only('.')).len() ==> valid_label(
                #[trigger] pieces(s, CharClass::Only('.'))[i],
            ),
    ensures
        host_like(s),
    decreases s.len(),
{
    let k = CharClass::Only('.');
    let n = span_out(s, k) as int;
    lemma_span_out(s, k);
    if n >= s.len() {
        assert(valid_label(pieces(s, k)[0]));
        assert(pieces(s, k)[0] == s);
        assert(is_ascii_alnum(s[0]) && is_ascii_alnum(s.last()));
    } else {
        let first = s.take(n);
        let rest = s.skip(n + 1);
        assert(pieces(s, k)[0] == first);
        assert(valid_label(first));
        assert forall|i: int| 0 <= i < pieces(rest, k).len() implies valid_label(
            #[trigger] pieces(rest, k)[i],
        ) by {
            assert(pieces(s, k)[i + 1] == pieces(rest, k)[i]);
        }
        lemma_labels_make_hosts(rest);
        assert(s[0] == first[0]);
        assert(is_ascii_alnum(first[0]));
        assert(s.last() == rest.last());
        assert forall|i: int| 0 <= i < s.len() implies is_ascii_alnum(#[trigger] s[i]) || s[i]
            == '-' || s[i] == '.' by {
            if i < n {
                assert(s[i] == first[i]);
            } else if i > n {
                assert(s[i] == rest[i - n - 1]);
            }
        }
    }
}

/// A host that is valid in lower case is host-like as it is written.
pub proof fn lemma_written_host(host: Seq<char>)
    requires
        valid_hostname(lower_all(host)),
    ensures
        host_like(host),
{
    let l = lower_all(host);
    lemma_labels_make_hosts(l);
    assert(l[0] == lower(host[0]));
    assert(l.last() == lower(host.last()));
    assert forall|i: int| 0 <= i < host.len() implies is_ascii_alnum(#[trigger] host[i])
        || host[i] == '-' || host[i] == '.' by {
        assert(l[i] == lower(host[i]));
    }
}

/// The run outside a class, given where it ends.
pub proof fn lemma_out_is(s: Seq<char>, k: CharClass, n: int)
    requires
        0 <= n <= s.len(),
        forall|i: int| 0 <= i < n ==> !in_class(k, #[trigger] s[i]),
        n < s.len() ==> in_class(k, s[n]),
    ensures
        span_out(s, k) == n,
{
    lemma_span_out(s, k);
    let m = span_out(s, k) as int;
    if m < n {
        assert(!in_class(k, s[m]));
    }
    if m > n {
        assert(!in_class(k, s[n]));
    }
}

/// The closing run outside a class, given where it begins.
proof fn lemma_tail_out_is(s: Seq<char>, k: CharClass, n: int)
    requires
        0 <= n <= s.len(),
        forall|i: int| n <= i < s.len() ==> !in_class(k, #[trigger] s[i]),
        n > 0 ==> in_class(k, s[n - 1]),
    ensures
        tail_out(s, k) == s.len() - n,
{
    lemma_tail_out(s, k);
    let m = s.len() - tail_out(s, k);
    if m > n {
        assert(!in_class(k, s[m - 1]));
    }
    if m < n {
        assert(!in_class(k, s[n - 1]));
    }
}

/// A host-like text is what it normalises to, but for its case and a leading `www.`.
proof fn lemma_normalizes(host: Seq<char>)
    requires
        host_like(host),
    ensures
        normalized_host(host) == ({
            let named = lower_all(
                if "www."@.is_prefix_of(host) {
                    host.skip(4)
                } else {
                    host
                },
            );
            if valid_hostname(named) {
                Some(named)
            } else {
                None
            }
        }),
{
    let k = CharClass::Space;
    assert(span_in(host, k) == 0);
    assert(trim_start(host, k) == host);
    assert(tail_in(host, k) == 0);
    assert(trim(host, k) == host);
    let d = CharClass::Only('.');
    assert(span_in(host, d) == 0);
    assert(trim_start(host, d) == host);
    assert(tail_in(host, d) == 0);
    assert(trim(host, d) == host);
}

/// The host of an authority, with what may stand before and behind it.
proof fn lemma_authority(user: Seq<char>, host: Seq<char>, rest: Seq<char>)
    requires
        host_like(host),
        user.len() == 0 || user.last() == '@',
        lacks(user, '/') && lacks(user, '?') && lacks(user, '#'),
        rest.len() > 0 ==> rest[0] == '/' || rest[0] == '?' || rest[0] == '#' || (rest[0] == ':'
            && lacks(rest, '@')),
    ensures
        authority_host(user + host + rest) == host,
{
    let s = user + host + rest;
    let k = CharClass::AuthorityEnd;
    lemma_span_out(s, k);
    let n = span_out(s, k) as int;
    let u = user.len() as int;
    let h = host.len() as int;
    assert(n >= u + h) by {
        if n < u {
            assert(s[n] == user[n]);
        } else if n < u + h {
            assert(s[n] == host[n - u]);
        }
    }
    if rest.len() > 0 && rest[0] != ':' {
        assert(s[u + h] == rest[0]);
        assert(n == u + h);
    }
    let authority = before_first(s, k);
    assert(authority == s.take(n));
    let at = CharClass::Only('@');
    assert forall|i: int| u <= i < authority.len() implies !in_class(
        at,
        #[trigger] authority[i],
    ) by {
        if i < u + h {
            assert(authority[i] == host[i - u]);
        } else {
            assert(authority[i] == rest[i - u - h]);
        }
    }
    if u > 0 {
        assert(authority[u - 1] == user.last());
    }
    lemma_tail_out_is(authority, at, u);
    let behind = after_last(authority, at);
    assert(behind == authority.skip(u));
    let colon = CharClass::Only(':');
    assert forall|i: int| 0 <= i < h implies !in_class(colon, #[trigger] behind[i]) by {
        assert(behind[i] == host[i]);
    }
    if h < behind.len() {
        assert(behind[h] == rest[0]);
    }
    lemma_out_is(behind, colon, h);
    assert(behind.take(h) == host);
}

/// The way a web address begins.
pub open spec fn is_scheme(s: Seq<char>) -> bool {
    ||| s == "http://"@
    ||| s == "https://"@
    ||| s == "HTTP://"@
    ||| s == "HTTPS://"@
}

/// What follows a scheme is what stands behind it.
proof fn lemma_scheme(scheme: Seq<char>, rest: Seq<char>)
    requires
        is_scheme(scheme),
    ensures
        behind_scheme(scheme + rest) == Some(rest),
        ({
            let l = lower_all(scheme + rest);
            "http://"@.is_prefix_of(l) || "https://"@.is_prefix_of(l)
        }),
{
    reveal_strlit("http://");
    reveal_strlit("https://");
    reveal_strlit("HTTP://");
    reveal_strlit("HTTPS://");
    let s = scheme + rest;
    let l = lower_all(s);
    let n = scheme.len() as int;
    assert(s.skip(n) == rest);
    assert(s.subrange(0, n) == scheme);
    assert forall|i: int| 0 <= i < n implies #[trigger] l[i] == lower(scheme[i]) by {
        assert(s[i] == scheme[i]);
    }
    assert("http://"@.len() == 7);
    assert("https://"@.len() == 8);
    assert("HTTP://"@.len() == 7);
    assert("HTTPS://"@.len() == 8);
    if n == 8 {
        assert(s[4] == scheme[4]);
        assert(s.subrange(0, 7)[4] == s[4]);
        assert("http://"@[4] == ':' && "HTTP://"@[4] == ':');
        assert(l.subrange(0, 8) == "https://"@);
    } else {
        assert(l.subrange(0, 7) == "http://"@);
    }
}

/// Every web address with a valid host leads to that host, in lower case, whoever it
/// logs in, and whatever port, path, query or fragment follows.
#[verifier::spinoff_prover]
pub proof fn law_web_addresses_name_their_host(
    scheme: Seq<char>,
    user: Seq<char>,
    host: Seq<char>,
    rest: Seq<char>,
)
    requires
        is_scheme(scheme),
        user.len() == 0 || user.last() == '@',
        lacks(user, '/') && lacks(user, '?') && lacks(user, '#'),
        valid_hostname(lower_all(host)),
        !"www."@.is_prefix_of(host),
        rest.len() > 0 ==> rest[0] == '/' || rest[0] == '?' || rest[0] == '#' || (rest[0] == ':'
            && lacks(rest, '@')),
    ensures
        host_of_word(scheme + user + host + rest) == Some(lower_all(host)),
{
    let behind = user + host + rest;
    assert(scheme + user + host + rest == scheme + behind);
    lemma_schemed_word(scheme, behind);
    lemma_written_host(host);
    lemma_authority(user, host, rest);
    lemma_normalizes(host);
}

/// A leading `www.` does not count.
#[verifier::spinoff_prover]
pub proof fn law_www_is_dropped(scheme: Seq<char>, host: Seq<char>)
    requires
        is_scheme(scheme),
        valid_hostname(lower_all(host)),
    ensures
        host_of_word(scheme + "www."@ + host) == Some(lower_all(host)),
        host_of_word("www."@ + host) == Some(lower_all(host)),
{
    let named = "www."@ + host;
    lemma_www(host);
    lemma_www_word(host);
    lemma_schemed_word(scheme, named);
    assert(scheme + "www."@ + host == scheme + named);
}

proof fn lemma_schemed_word(scheme: Seq<char>, rest: Seq<char>)
    requires
        is_scheme(scheme),
    ensures
        host_of_word(scheme + rest) == normalized_host(authority_host(rest)),
{
    lemma_scheme(scheme, rest);
}

proof fn lemma_www_word(host: Seq<char>)
    ensures
        host_of_word("www."@ + host) == normalized_host(authority_host("www."@ + host)),
{
    lemma_www_is_no_scheme(host);
    lemma_scheme("https://"@, "www."@ + host);
}

proof fn lemma_www(host: Seq<char>)
    requires
        valid_hostname(lower_all(host)),
    ensures
        normalized_host(authority_host("www."@ + host)) == Some(lower_all(host)),
{
    reveal_strlit("www.");
    let named = "www."@ + host;
    let nothing = Seq::<char>::empty();
    assert("www."@.len() == 4);
    lemma_written_host(host);
    assert(host_like(named)) by {
        assert(named[0] == 'w');
        assert(named.last() == host.last());
        assert forall|i: int| 0 <= i < named.len() implies is_ascii_alnum(#[trigger] named[i])
            || named[i] == '-' || named[i] == '.' by {
            if i >= 4 {
                assert(named[i] == host[i - 4]);
            } else {
                assert(named[i] == "www."@[i]);
            }
        }
    }
    assert(named.subrange(0, 4) == "www."@);
    assert(named.skip(4) == host);
    lemma_normalizes(named);
    lemma_authority(nothing, named, nothing);
    assert(nothing + named + nothing == named);
}

proof fn lemma_www_is_no_scheme(host: Seq<char>)
    ensures
        ({
            let l = lower_all("www."@ + host);
            &&& "www."@.is_prefix_of(l)
            &&& !"http://"@.is_prefix_of(l)
            &&& !"https://"@.is_prefix_of(l)
        }),
{
    reveal_strlit("www.");
    reveal_strlit("http://");
    reveal_strlit("https://");
    let named = "www."@ + host;
    let l = lower_all(named);
    assert("www."@.len() == 4);
    assert forall|i: int| 0 <= i < 4 implies l.subrange(0, 4)[i] == "www."@[i] by {
        assert(named[i] == "www."@[i]);
        assert(l[i] == lower(named[i]));
    }
    assert(l.subrange(0, 4) == "www."@);
    assert(l[0] == l.subrange(0, 4)[0]);
    assert("http://"@[0] == 'h' && "https://"@[0] == 'h');
    if "http://"@.is_prefix_of(l) {
        assert(l.subrange(0, "http://"@.len() as int)[0] == l[0]);
    }
    if "https://"@.is_prefix_of(l) {
        assert(l.subrange(0, "https://"@.len() as int)[0] == l[0]);
    }
}

/// A host needs no scheme, and a text of letters, digits, hyphens and dots is a link exactly
/// where it is a valid host.
#[verifier::spinoff_prover]
pub proof fn law_bare_hosts_are_links(host: Seq<char>)
    requires
        host_like(host),
        !"www."@.is_prefix_of(lower_all(host)),
    ensures
        host_of_word(host) == (if valid_hostname(lower_all(host)) {
            Some(lower_all(host))
        } else {
            None
        }),
{
    reveal_strlit("www.");
    reveal_strlit("://");
    reveal_strlit("http://");
    reveal_strlit("https://");
    let nothing = Seq::<char>::empty();
    lemma_authority(nothing, host, nothing);
    assert(nothing + host + nothing == host);
    lemma_normalizes(host);
    let l = lower_all(host);
    assert("www."@.len() == 4);
    if "www."@.is_prefix_of(host) {
        assert(host.subrange(0, 4) == "www."@);
        assert(l.subrange(0, 4) == "www."@) by {
            assert forall|i: int| 0 <= i < 4 implies l.subrange(0, 4)[i] == "www."@[i] by {
                assert(host.subrange(0, 4)[i] == host[i]);
                assert(l[i] == lower(host[i]));
            }
        }
    }
    assert("http://"@[5] == '/' && "http://"@.len() == 7);
    if "http://"@.is_prefix_of(l) {
        assert(l.subrange(0, 7)[5] == l[5]);
        assert(l[5] == lower(host[5]));
    }
    assert("https://"@[6] == '/' && "https://"@.len() == 8);
    if "https://"@.is_prefix_of(l) {
        assert(l.subrange(0, 8)[6] == l[6]);
        assert(l[6] == lower(host[6]));
    }
    assert("://"@.len() == 3 && "://"@[0] == ':');
    if occurs(host, "://"@) {
        let i = choose|i: int|
            0 <= i <= host.len() - "://"@.len() && #[trigger] host.subrange(
                i,
                i + "://"@.len(),
            ) == "://"@;
        assert(host.subrange(i, i + 3)[0] == host[i]);
    }
}

/// A text without a separator is one piece.
pub proof fn lemma_one_piece(s: Seq<char>, c: char)
    requires
        lacks(s, c),
    ensures
        pieces(s, CharClass::Only(c)) == seq![s],
{
    lemma_out_is(s, CharClass::Only(c), s.len() as int);
}

/// A host needs a dot.
proof fn lemma_no_host_without_dot(s: Seq<char>)
    requires
        lacks(s, '.'),
    ensures
        normalized_host(authority_host(s)) is None,
{
    reveal_strlit("www.");
    let a = before_first(s, CharClass::AuthorityEnd);
    lemma_span_out(s, CharClass::AuthorityEnd);
    assert(lacks(a, '.'));
    let b = after_last(a, CharClass::Only('@'));
    lemma_tail_out(a, CharClass::Only('@'));
    assert(lacks(b, '.'));
    let h = before_first(b, CharClass::Only(':'));
    lemma_span_out(b, CharClass::Only(':'));
    assert(lacks(h, '.'));
    lemma_span_in(h, CharClass::Space);
    let t = trim_start(h, CharClass::Space);
    lemma_tail_in(t, CharClass::Space);
    let t = trim(h, CharClass::Space);
    assert(lacks(t, '.'));
    lemma_span_in(t, CharClass::Only('.'));
    let v = trim_start(t, CharClass::Only('.'));
    lemma_tail_in(v, CharClass::Only('.'));
    let bare = trim(t, CharClass::Only('.'));
    assert(lacks(bare, '.'));
    assert("www."@.len() == 4 && "www."@[3] == '.');
    if "www."@.is_prefix_of(bare) {
        assert(bare.subrange(0, 4)[3] == bare[3]);
    }
    let named = lower_all(bare);
    assert forall|i: int| 0 <= i < named.len() implies #[trigger] named[i] != '.' by {
        assert(named[i] == lower(bare[i]));
    }
    lemma_one_piece(named, '.');
}

/// A word without a dot is no link, and is spoken as it is written.
pub proof fn law_words_without_dots_are_spoken_as_written(word: Seq<char>)
    requires
        lacks(word, '.'),
    ensures
        host_of_word(word) is None,
        link_host(word) is None,
        spoken_word(word) == word,
{
    lemma_not_a_host(word);
    lemma_span_in(word, CharClass::LeadingPunctuation);
    lemma_tail_in(word, CharClass::TrailingPunctuation);
    let core = word_parts(word).1;
    assert(lacks(core, '.'));
    lemma_not_a_host(core);
}

proof fn lemma_not_a_host(word: Seq<char>)
    requires
        lacks(word, '.'),
    ensures
        host_of_word(word) is None,
{
    reveal_strlit("www.");
    let l = lower_all(word);
    assert("www."@.len() == 4 && "www."@[3] == '.');
    if "www."@.is_prefix_of(l) {
        assert(l.subrange(0, 4)[3] == l[3]);
        assert(l[3] == lower(word[3]));
    }
    lemma_no_host_without_dot(word);
    if let Some(rest) = behind_scheme(word) {
        reveal_strlit("http://");
        reveal_strlit("https://");
        reveal_strlit("HTTP://");
        reveal_strlit("HTTPS://");
        assert(lacks(rest, '.'));
        lemma_no_host_without_dot(rest);
    }
}

/// Punctuation around a word is kept around what is spoken of it.
pub proof fn law_punctuation_stays_around_links(
    opening: Seq<char>,
    core: Seq<char>,
    closing: Seq<char>,
)
    requires
        core.len() > 0,
        is_ascii_alnum(core[0]),
        is_ascii_alnum(core.last()),
        forall|i: int|
            0 <= i < opening.len() ==> {
                let c = #[trigger] opening[i];
                c == '(' || c == '[' || c == '{' || c == '<' || c == '"' || c == '\'' || c == '`'
            },
        forall|i: int|
            0 <= i < closing.len() ==> {
                let c = #[trigger] closing[i];
                ||| c == ')' || c == ']' || c == '}' || c == '>' || c == '"' || c == '\''
                ||| c == '`' || c == '.' || c == ',' || c == '!' || c == '?' || c == ';'
                ||| c == ':'
            },
    ensures
        word_parts(opening + core + closing) == (opening, core, closing),
        link_host(opening + core + closing) == link_host(core),
        spoken_word(opening + core + closing) == opening + spoken_word(core) + closing,
{
    lemma_parts(opening, core, closing);
    let nothing = Seq::<char>::empty();
    lemma_parts(nothing, core, nothing);
    assert(nothing + core + nothing == core);
    if let Some(host) = link_host(core) {
        assert(nothing + host + nothing == host);
    }
}

proof fn lemma_parts(opening: Seq<char>, core: Seq<char>, closing: Seq<char>)
    requires
        core.len() > 0,
        is_ascii_alnum(core[0]),
        is_ascii_alnum(core.last()),
        forall|i: int|
            0 <= i < opening.len() ==> in_class(
                CharClass::LeadingPunctuation,
                #[trigger] opening[i],
            ),
        forall|i: int|
            0 <= i < closing.len() ==> in_class(
                CharClass::TrailingPunctuation,
                #[trigger] closing[i],
            ),
    ensures
        word_parts(opening + core + closing) == (opening, core, closing),
{
    let s = opening + core + closing;
    let (k, t) = (CharClass::LeadingPunctuation, CharClass::TrailingPunctuation);
    lemma_span_in(s, k);
    lemma_tail_in(s, t);
    let n = opening.len() as int;
    let m = n + core.len();
    let start = span_in(s, k) as int;
    let end = s.len() - tail_in(s, t);
    assert(s[n] == core[0]);
    assert(s[m - 1] == core.last());
    if start < n {
        assert(s[start] == opening[start]);
    }
    if start > n {
        assert(in_class(k, s[n]));
    }
    if end > m {
        assert(s[end - 1] == closing[end - 1 - m]);
    }
    if end < m {
        assert(in_class(t, s[m - 1]));
    }
    assert(s.take(n) == opening);
    assert(s.subrange(n, m) == core);
    assert(s.skip(m) == closing);
}

/// An address under another scheme is no link.
pub proof fn law_other_schemes_are_no_links(scheme: Seq<char>, rest: Seq<char>)
    requires
        lacks(scheme, ':'),
        lacks(scheme, '.'),
        lower_all(scheme) != "http"@,
        lower_all(scheme) != "https"@,
    ensures
        host_of_word(scheme + "://"@ + rest) is None,
{
    reveal_strlit("://");
    reveal_strlit("www.");
    reveal_strlit("http");
    reveal_strlit("https");
    reveal_strlit("http://");
    reveal_strlit("https://");
    let word = scheme + "://"@ + rest;
    let l = lower_all(word);
    let n = scheme.len() as int;
    assert("://"@.len() == 3 && "://"@[0] == ':');
    assert(word[n] == ':');
    assert(l[n] == ':');
    assert forall|i: int| 0 <= i < n implies #[trigger] l[i] != ':' && l[i] != '.' && l[i]
        == lower_all(scheme)[i] by {
        assert(word[i] == scheme[i]);
        assert(l[i] == lower(scheme[i]));
    }
    assert(word.subrange(n, n + 3) == "://"@);
    assert(occurs(word, "://"@)) by {
        assert(word.subrange(n, n + "://"@.len()) == "://"@);
    }
    assert("http://"@.len() == 7 && "http://"@[4] == ':' && "http"@.len() == 4);
    if "http://"@.is_prefix_of(l) {
        assert forall|i: int| 0 <= i < 7 implies #[trigger] l[i] == "http://"@[i] by {
            assert(l.subrange(0, 7)[i] == l[i]);
        }
        assert(n == 4) by {
            assert(l[4] == ':');
            if n < 4 {
                assert("http://"@[n] != ':');
            }
        }
        assert forall|i: int| 0 <= i < 4 implies lower_all(scheme)[i] == "http"@[i] by {
            assert(l[i] == "http://"@[i]);
            assert("http"@[i] == "http://"@[i]);
        }
        assert(lower_all(scheme) =~= "http"@);
    }
    assert("https://"@.len() == 8 && "https://"@[5] == ':' && "https"@.len() == 5);
    if "https://"@.is_prefix_of(l) {
        assert forall|i: int| 0 <= i < 8 implies #[trigger] l[i] == "https://"@[i] by {
            assert(l.subrange(0, 8)[i] == l[i]);
        }
        assert(n == 5) by {
            assert(l[5] == ':');
            if n < 5 {
                assert("https://"@[n] != ':');
            }
        }
        assert forall|i: int| 0 <= i < 5 implies lower_all(scheme)[i] == "https"@[i] by {
            assert(l[i] == "https://"@[i]);
            assert("https"@[i] == "https://"@[i]);
        }
        assert(lower_all(scheme) =~= "https"@);
    }
    assert("www."@.len() == 4 && "www."@[3] == '.');
    if "www."@.is_prefix_of(l) {
        assert forall|i: int| 0 <= i < 4 implies #[trigger] l[i] == "www."@[i] by {
            assert(l.subrange(0, 4)[i] == l[i]);
        }
        assert(l[3] == '.');
        if n < 3 {
            assert("www."@[n] != ':');
        }
    }
}

/// The parts of a word make it up, and punctuation of either kind is not left on its side
/// of the core.
pub proof fn law_words_are_made_of_their_parts(word: Seq<char>)
    ensures
        ({
            let (opening, core, closing) = word_parts(word);
            &&& opening + core + closing == word
            &&& core.len() > 0 ==> {
                let (c, d) = (core[0], core.last());
                &&& c != '(' && c != '[' && c != '{' && c != '<'
                &&& c != '"' && c != '\'' && c != '`'
                &&& d != ')' && d != ']' && d != '}' && d != '>' && d != '"' && d != '\''
                &&& d != '`' && d != '.' && d != ',' && d != '!' && d != '?' && d != ';'
                &&& d != ':'
            }
        }),
{
    let (k, t) = (CharClass::LeadingPunctuation, CharClass::TrailingPunctuation);
    lemma_span_in(word, k);
    lemma_tail_in(word, t);
    let (opening, core, closing) = word_parts(word);
    assert(opening + core + closing =~= word);
    if core.len() > 0 {
        assert(core[0] == word[span_in(word, k) as int]);
        assert(core.last() == word[word.len() - tail_in(word, t) - 1]);
    }
}

} // verus!
