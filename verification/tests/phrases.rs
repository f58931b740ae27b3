use mumble_sip::phrase::{channel_announcement_phrase, text_message_phrase};

#[test]
fn announcement_phrase_uses_name_when_available() {
    let phrase = channel_announcement_phrase(Some("SIP Calls"), 7);
    assert_eq!(phrase, "You are now in the SIP Calls channel");
}

#[test]
fn announcement_phrase_falls_back_to_id() {
    let phrase = channel_announcement_phrase(Some("   "), 42);
    assert_eq!(phrase, "You are now in channel 42");
}

#[test]
fn text_message_phrase_includes_sender_name() {
    let phrase = text_message_phrase(Some("Sam"), "hello there");
    assert_eq!(phrase, "Sam says: hello there");
}

#[test]
fn text_message_phrase_uses_default_sender_when_unknown() {
    let phrase = text_message_phrase(None, "hello there");
    assert_eq!(phrase, "Someone says: hello there");
}

#[test]
fn text_message_phrase_normalizes_https_url() {
    let phrase = text_message_phrase(Some("Sam"), "check https://alamode.dev");
    assert_eq!(phrase, "Sam says: check alamode dot dev");
}

#[test]
fn text_message_phrase_normalizes_www_url() {
    let phrase = text_message_phrase(Some("Sam"), "check www.alamode.dev now");
    assert_eq!(phrase, "Sam says: check alamode dot dev now");
}

#[test]
fn text_message_phrase_normalizes_bare_host_with_path_and_query() {
    let phrase = text_message_phrase(Some("Sam"), "go to alamode.dev/black/brie?legal=yes");
    assert_eq!(phrase, "Sam says: go to alamode dot dev");
}

#[test]
fn text_message_phrase_preserves_mixed_sentence_text() {
    let phrase = text_message_phrase(
        Some("Sam"),
        "Please review this: https://alamode.dev/black/brie?even=legal thanks!",
    );
    assert_eq!(
        phrase,
        "Sam says: Please review this: alamode dot dev thanks!"
    );
}

#[test]
fn text_message_phrase_normalizes_html_anchor_href_url() {
    let phrase = text_message_phrase(
        Some("Sam"),
        r#"<a href="https://www.google.com/maps/place/Denver+Turnverein?entry=ttu&amp;g_ep=abc">https://www.google.com/maps/place/Denver+Turnverein?entry=ttu&amp;g_ep=abc</a>"#,
    );
    assert_eq!(phrase, "Sam posted a link to google dot com");
}

#[test]
fn text_message_phrase_uses_posted_link_wording_for_plain_link_message() {
    let phrase = text_message_phrase(Some("Sam"), "https://www.google.com/maps/place/Denver");
    assert_eq!(phrase, "Sam posted a link to google dot com");
}

#[test]
fn text_message_phrase_preserves_text_around_html_anchor() {
    let phrase = text_message_phrase(
        Some("Sam"),
        r#"Meet at <a href="https://www.google.com/maps/place/Denver">map</a> tonight"#,
    );
    assert_eq!(phrase, "Sam says: Meet at google dot com tonight");
}
