use mumble_sip::hosts::{
    collapse_whitespace, extract_url_host, hostname_for_speech, is_valid_host_label,
    is_valid_hostname, normalize_host_for_speech, parse_host_from_bare_token, parse_host_from_url,
    token_has_spoken_content,
};
use mumble_sip::html::{
    decode_basic_html_entities, parse_anchor_href, replace_html_anchor_tags, strip_html_tags,
};
use mumble_sip::phrase::{
    analyze_text_message_for_tts, join_human_list, normalize_text_token_for_tts,
    split_token_affixes, text_message_phrase,
};
use mumble_sip::search::{find_ascii_case_insensitive, replace_text};
use mumble_sip::text::{char_is_space, chars_of, decimal_text, split_words, string_of};

fn c(s: &str) -> Vec<char> {
    chars_of(s)
}

fn s(chars: &[char]) -> String {
    string_of(chars)
}

fn opt(chars: Option<Vec<char>>) -> Option<String> {
    chars.map(|v| s(&v))
}

#[test]
fn white_space_is_that_of_the_standard_library() {
    for code in 0..=0x10ffffu32 {
        if let Some(ch) = char::from_u32(code) {
            assert_eq!(char_is_space(ch), ch.is_whitespace(), "U+{:04X}", code);
        }
    }
}

#[test]
fn text_survives_the_way_to_characters_and_back() {
    for text in ["", "hello", "h\u{e9}llo \u{1f600}", " \t\n"] {
        assert_eq!(s(&c(text)), text);
    }
    for n in [0u64, 7, 10, 1234567890, u64::MAX] {
        assert_eq!(s(&decimal_text(n)), n.to_string());
    }
}

#[test]
fn words_are_split_like_the_standard_library_does() {
    for text in ["", "  ", "a", " a  b\tc ", "x\u{2003}y"] {
        let ours: Vec<String> = split_words(&c(text)).iter().map(|w| s(w)).collect();
        let std: Vec<String> = text.split_whitespace().map(str::to_string).collect();
        assert_eq!(ours, std);
    }
}

#[test]
fn white_space_collapses() {
    assert_eq!(s(&collapse_whitespace(&c("  a \n b\t\tc "))), "a b c");
    let once = collapse_whitespace(&c(" x  y "));
    assert_eq!(collapse_whitespace(&once), once);
}

#[test]
fn search_ignores_ascii_case() {
    assert_eq!(find_ascii_case_insensitive(&c("xx<A HREF"), &c("<a")), Some(2));
    assert_eq!(find_ascii_case_insensitive(&c("abc"), &c("d")), None);
    assert_eq!(find_ascii_case_insensitive(&c("ab"), &c("abc")), None);
    assert_eq!(s(&replace_text(&c("a&amp;b&amp;"), &c("&amp;"), &c("&"))), "a&b&");
}

#[test]
fn tags_are_stripped() {
    assert_eq!(s(&strip_html_tags(&c("a <b>bold</b> c"))), "a   bold   c");
    assert_eq!(s(&strip_html_tags(&c("plain"))), "plain");
}

#[test]
fn entities_are_decoded() {
    assert_eq!(
        s(&decode_basic_html_entities(&c("&lt;a&gt; &quot;b&quot; &amp;"))),
        "<a> \"b\" &"
    );
    assert_eq!(s(&decode_basic_html_entities(&c("no entities"))), "no entities");
}

#[test]
fn decoding_undoes_escaping_once() {
    for (escaped, plain) in [
        ("&amp;lt;", "&lt;"),
        ("&amp;amp;#39;", "&amp;#39;"),
        ("&apos;&#39;&quot;", "''\""),
        ("a &lt;b&gt; &amp;&amp; c", "a <b> && c"),
    ] {
        assert_eq!(s(&decode_basic_html_entities(&c(escaped))), plain);
    }
}

#[test]
fn anchors_become_their_targets() {
    assert_eq!(
        opt(parse_anchor_href(&c("<a class=x HREF = 'https://example.com/a'>"))).as_deref(),
        Some("https://example.com/a")
    );
    assert_eq!(opt(parse_anchor_href(&c("<a name=x>"))), None);
    let replaced = s(&replace_html_anchor_tags(&c(
        "see <a href=\"https://example.com\">this</a> now",
    )));
    assert!(replaced.contains("https://example.com"));
    assert!(!replaced.contains("this"));
}

#[test]
fn host_names_are_recognised() {
    assert!(is_valid_host_label(&c("abc-1")));
    assert!(!is_valid_host_label(&c("-abc")));
    assert!(!is_valid_host_label(&c("")));
    assert!(is_valid_hostname(&c("example.com")));
    assert!(!is_valid_hostname(&c("example")));
    assert!(!is_valid_hostname(&c("example..com")));
    assert_eq!(
        opt(normalize_host_for_speech(&c("www.Example.COM."))).as_deref(),
        Some("example.com")
    );
    assert_eq!(
        opt(normalize_host_for_speech(&c("WWW.Example.com"))).as_deref(),
        Some("www.example.com")
    );
    assert_eq!(
        opt(parse_host_from_url(&c("https://user@example.com:8080/path"))).as_deref(),
        Some("example.com")
    );
    assert_eq!(opt(parse_host_from_url(&c("example.com"))), None);
    assert_eq!(
        opt(parse_host_from_bare_token(&c("example.com/a?b"))).as_deref(),
        Some("example.com")
    );
    assert_eq!(
        opt(extract_url_host(&c("http://example.com"))).as_deref(),
        Some("example.com")
    );
    assert_eq!(opt(extract_url_host(&c("hello"))), None);
    assert_eq!(s(&hostname_for_speech(&c("a.example.com"))), "a dot example dot com");
    assert_eq!(
        s(&hostname_for_speech(&c("my-site.example.com"))),
        "my dash site dot example dot com"
    );
    assert!(token_has_spoken_content(&c("a!")));
    assert!(!token_has_spoken_content(&c("...")));
}

#[test]
fn words_lose_their_punctuation_only_for_the_search() {
    let word = c("(https://example.com),");
    let (before, core, after) = split_token_affixes(&word);
    assert_eq!((s(before), s(core), s(after)), (
        "(".to_string(),
        "https://example.com".to_string(),
        "),".to_string(),
    ));
    let (spoken, host) = normalize_text_token_for_tts(&word);
    assert_eq!(s(&spoken), "(example dot com),");
    assert_eq!(opt(host).as_deref(), Some("example dot com"));
}

#[test]
fn lists_are_read_out() {
    let list = |items: &[&str]| s(&join_human_list(&items.iter().map(|i| c(i)).collect()));
    assert_eq!(list(&[]), "");
    assert_eq!(list(&["a"]), "a");
    assert_eq!(list(&["a", "b"]), "a and b");
    assert_eq!(list(&["a", "b", "c"]), "a, b, and c");
}

#[test]
fn several_links_are_read_as_a_list() {
    assert_eq!(
        text_message_phrase(Some(" Sam "), "https://a.example.com https://b.example.com"),
        "Sam posted links to a dot example dot com and b dot example dot com"
    );
    assert_eq!(text_message_phrase(Some("  "), "hi"), "Someone says: hi");
    let analysis = analyze_text_message_for_tts(&c("see example.com now"));
    assert_eq!(analysis.non_link_token_count, 2);
    assert_eq!(analysis.link_hosts_for_speech.len(), 1);
}
