use base64::Engine;
use gmail_tui::gmail_api::{
    choose_directive, classify, decode_and_render_body, extract_body, extract_subject,
    extract_unsubscribe_link, find_header, first_candidate, get_content_from_body,
    get_content_from_parts, or_placeholder, parse_message, prefer_html, Body, Email,
    GmailMessage, Header, Part, Payload, UnsubscribeTarget,
};
use gmail_tui::decoder::DecodingError;

const PLACEHOLDER: &str = "No readable content found in the email.";

fn v(s: &str) -> Vec<char> {
    s.chars().collect()
}

fn header(name: &str, value: &str) -> Header {
    Header { name: name.to_string(), value: value.to_string() }
}

fn encoded(text: &str) -> String {
    base64::engine::general_purpose::URL_SAFE.encode(text.as_bytes())
}

fn inline(text: &str) -> Body {
    Body { data: Some(encoded(text)), size: Some(text.len() as i32) }
}

fn nothing() -> Body {
    Body { data: None, size: Some(0) }
}

fn part(mime_type: &str, body: Body, parts: Option<Vec<Part>>) -> Part {
    Part { mime_type: mime_type.to_string(), body, parts }
}

fn payload(body: Body, parts: Option<Vec<Part>>) -> Payload {
    Payload { headers: vec![], parts, body, mime_type: None }
}

fn unsubscribe(value: &str) -> Option<UnsubscribeTarget> {
    extract_unsubscribe_link(&[header("List-Unsubscribe", value)])
}

#[test]
fn subject_is_the_first_header_of_that_name() {
    let headers = vec![
        header("From", "a@b.c"),
        header("subject", "lower case"),
        header("Subject", "First"),
        header("Subject", "Second"),
    ];
    assert_eq!(extract_subject(&headers), "First");
    assert_eq!(find_header(&headers, "From"), Some(&"a@b.c".to_string()));
    assert_eq!(find_header(&headers, "To"), None);
}

#[test]
fn subject_is_empty_where_no_header_has_that_name() {
    assert_eq!(extract_subject(&[]), "");
    assert_eq!(extract_subject(&[header("subject", "x"), header("SUBJECT", "y")]), "");
}

#[test]
fn http_is_preferred_over_mailto() {
    assert_eq!(
        unsubscribe("<mailto:x@y.com>, <https://y.com/unsub>"),
        Some(UnsubscribeTarget::HttpLink("https://y.com/unsub".to_string()))
    );
    assert_eq!(
        unsubscribe("<https://y.com/unsub>,<mailto:x@y.com>"),
        Some(UnsubscribeTarget::HttpLink("https://y.com/unsub".to_string()))
    );
    assert_eq!(
        unsubscribe("<mailto:x@y.com>, <http://a.b/1>, <https://c.d/2>"),
        Some(UnsubscribeTarget::HttpLink("http://a.b/1".to_string()))
    );
}

#[test]
fn mailto_alone_gives_the_address() {
    assert_eq!(
        unsubscribe("<mailto:x@y.com>"),
        Some(UnsubscribeTarget::MailtoLink("x@y.com".to_string()))
    );
    assert_eq!(
        unsubscribe("  <mailto:x@y.com>  "),
        Some(UnsubscribeTarget::MailtoLink("x@y.com".to_string()))
    );
}

#[test]
fn a_bare_value_is_classified_as_it_stands() {
    assert_eq!(
        unsubscribe("https://y.com/u"),
        Some(UnsubscribeTarget::HttpLink("https://y.com/u".to_string()))
    );
    assert_eq!(
        unsubscribe("mailto:x@y.com"),
        Some(UnsubscribeTarget::MailtoLink("x@y.com".to_string()))
    );
    assert_eq!(
        unsubscribe("call us, please"),
        Some(UnsubscribeTarget::Unsupported("call us, please".to_string()))
    );
    assert_eq!(unsubscribe(""), Some(UnsubscribeTarget::Unsupported(String::new())));
}

#[test]
fn the_first_bracketed_directive_wins_where_none_is_http() {
    assert_eq!(
        unsubscribe("bare, <ftp://a.b/c>, <mailto:x@y.com>"),
        Some(UnsubscribeTarget::Unsupported("ftp://a.b/c".to_string()))
    );
    assert_eq!(unsubscribe("<>"), Some(UnsubscribeTarget::Unsupported(String::new())));
    assert_eq!(unsubscribe("<"), Some(UnsubscribeTarget::Unsupported("<".to_string())));
}

#[test]
fn no_unsubscribe_header_gives_no_target() {
    assert_eq!(extract_unsubscribe_link(&[]), None);
    assert_eq!(extract_unsubscribe_link(&[header("list-unsubscribe", "<https://a.b>")]), None);
}

#[test]
fn only_the_first_unsubscribe_header_counts() {
    let headers = vec![
        header("List-Unsubscribe", "<mailto:first@y.com>"),
        header("List-Unsubscribe", "<https://second.example/>"),
    ];
    assert_eq!(
        extract_unsubscribe_link(&headers),
        Some(UnsubscribeTarget::MailtoLink("first@y.com".to_string()))
    );
}

#[test]
fn candidates_are_trimmed_and_unbracketed() {
    let pieces = vec![v(" plain "), v(" <mailto:a@b.c> "), v("<https://d.e>")];
    assert_eq!(first_candidate(&pieces, false), Some(v("mailto:a@b.c")));
    assert_eq!(first_candidate(&pieces, true), Some(v("https://d.e")));
    assert_eq!(first_candidate(&vec![v("x"), v("<y")], false), None);
    assert_eq!(choose_directive("<a>, <httpx>"), v("httpx"));
    assert_eq!(choose_directive("a, b"), v("a, b"));
}

#[test]
fn directives_are_classified_by_how_they_begin() {
    assert_eq!(classify(&v("http")), UnsubscribeTarget::HttpLink("http".to_string()));
    assert_eq!(classify(&v("mailto:")), UnsubscribeTarget::MailtoLink(String::new()));
    assert_eq!(classify(&v("Mailto:x")), UnsubscribeTarget::Unsupported("Mailto:x".to_string()));
    assert_eq!(classify(&v("HTTP://x")), UnsubscribeTarget::Unsupported("HTTP://x".to_string()));
}

#[test]
fn an_encoded_body_is_decoded_and_rendered() {
    assert_eq!(decode_and_render_body(&encoded("Hello *you*"), 80), Ok("Hello *you*\n".to_string()));
    assert_eq!(
        decode_and_render_body(&encoded("<p>a &lt; b</p>"), 80),
        Ok("a < b\n".to_string())
    );
    assert_eq!(decode_and_render_body("@@@", 80), Err(DecodingError::MalformedBase64));
    assert_eq!(decode_and_render_body("-_8=", 80), Err(DecodingError::InvalidUtf8));
}

#[test]
fn a_node_without_data_that_decodes_has_no_content() {
    assert_eq!(get_content_from_body(&nothing(), 80), None);
    assert_eq!(get_content_from_body(&Body { data: Some("@@@".to_string()), size: None }, 80), None);
    assert_eq!(get_content_from_body(&inline("hi"), 80), Some("hi\n".to_string()));
}

#[test]
fn html_is_preferred_where_there_is_any() {
    assert_eq!(prefer_html("A".to_string(), "<em>B</em>".to_string(), 80), "*B*\n");
    assert_eq!(prefer_html("A".to_string(), String::new(), 80), "A");
    assert_eq!(prefer_html(String::new(), String::new(), 80), PLACEHOLDER);
}

#[test]
fn an_inline_body_at_the_root_is_the_body() {
    let p = payload(inline("Root text"), Some(vec![part("text/plain", inline("Part text"), None)]));
    assert_eq!(extract_body(&p, 80), "Root text\n");
}

#[test]
fn html_part_wins_over_plain_part() {
    let plain_first = payload(
        nothing(),
        Some(vec![
            part("text/plain", inline("A"), None),
            part("text/html", inline("<p>B &amp; C</p>"), None),
        ]),
    );
    assert_eq!(extract_body(&plain_first, 80), "B & C\n");
    let html_first = payload(
        nothing(),
        Some(vec![
            part("text/html", inline("<p>B &amp; C</p>"), None),
            part("text/plain", inline("A"), None),
        ]),
    );
    assert_eq!(extract_body(&html_first, 80), "B & C\n");
}

#[test]
fn plain_part_serves_where_there_is_no_html() {
    let p = payload(
        nothing(),
        Some(vec![
            part("text/plain", inline("first"), None),
            part("image/png", inline("ignored"), None),
            part("text/plain", inline("second"), None),
        ]),
    );
    assert_eq!(extract_body(&p, 80), "first\nsecond\n");
}

#[test]
fn plain_part_serves_where_the_html_does_not_decode() {
    let p = payload(
        nothing(),
        Some(vec![
            part("text/plain", inline("A"), None),
            part("text/html", Body { data: Some("@@@".to_string()), size: None }, None),
        ]),
    );
    assert_eq!(extract_body(&p, 80), "A\n");
}

#[test]
fn nested_parts_are_searched_depth_first() {
    let alternative = part(
        "multipart/alternative",
        nothing(),
        Some(vec![
            part("text/plain", inline("nested plain"), None),
            part("text/html", inline("<p>nested &amp; html</p>"), None),
        ]),
    );
    let p = payload(
        nothing(),
        Some(vec![alternative, part("text/html", inline("<p>later &amp; html</p>"), None)]),
    );
    assert_eq!(extract_body(&p, 80), "nested & html\n");
}

#[test]
fn gathered_text_does_not_outrank_a_nested_match() {
    let mixed = vec![
        part("text/plain", inline("outer"), None),
        part(
            "multipart/mixed",
            nothing(),
            Some(vec![part("text/plain", inline("inner"), None)]),
        ),
    ];
    assert_eq!(get_content_from_parts(&mixed, 80), "inner\n");
}

#[test]
fn a_container_without_readable_parts_yields_the_placeholder() {
    let empty = vec![
        part("multipart/mixed", nothing(), Some(vec![part("image/png", nothing(), None)])),
        part("text/plain", inline("never reached"), None),
    ];
    assert_eq!(get_content_from_parts(&empty, 80), PLACEHOLDER);
    assert_eq!(get_content_from_parts(&vec![], 80), PLACEHOLDER);
}

#[test]
fn a_root_body_that_does_not_decode_falls_back_to_the_parts() {
    let p = payload(
        Body { data: Some("@@@".to_string()), size: None },
        Some(vec![part("text/plain", inline("fallback"), None)]),
    );
    assert_eq!(extract_body(&p, 80), "fallback\n");
}

#[test]
fn a_message_without_content_gets_the_placeholder() {
    assert_eq!(extract_body(&payload(nothing(), None), 80), PLACEHOLDER);
    assert_eq!(extract_body(&payload(nothing(), Some(vec![])), 80), PLACEHOLDER);
    assert_eq!(
        extract_body(&payload(Body { data: Some("@@@".to_string()), size: None }, None), 80),
        PLACEHOLDER
    );
}

#[test]
fn the_body_is_never_empty() {
    assert_eq!(or_placeholder(String::new()), PLACEHOLDER);
    assert_eq!(or_placeholder("x".to_string()), "x");
    let trees = vec![
        payload(inline(""), None),
        payload(inline("   "), None),
        payload(nothing(), Some(vec![part("text/plain", inline(""), None)])),
        payload(nothing(), Some(vec![part("text/html", inline("<p>&amp;</p>"), None)])),
        payload(
            nothing(),
            Some(vec![part("multipart/mixed", nothing(), Some(vec![part("a/b", inline("x"), None)]))]),
        ),
        payload(inline("text"), None),
    ];
    for tree in trees {
        assert!(!extract_body(&tree, 80).is_empty());
    }
}

#[test]
fn the_body_is_wrapped_to_the_width_that_is_asked_for() {
    let p = payload(inline("one two three four five six seven eight nine ten"), None);
    assert_eq!(extract_body(&p, 20), "one two three four\nfive six seven eight\nnine ten\n");
    assert_eq!(extract_body(&p, 80), "one two three four five six seven eight nine ten\n");
}

#[test]
fn a_message_is_normalised() {
    let msg = GmailMessage {
        id: "18c2".to_string(),
        payload: Payload {
            headers: vec![
                header("Subject", "Weekly news"),
                header("List-Unsubscribe", "<mailto:leave@news.example>, <https://news.example/leave>"),
            ],
            parts: Some(vec![
                part("text/plain", inline("Plain news"), None),
                part("text/html", inline("<p>Rich &amp; news</p>"), None),
            ]),
            body: nothing(),
            mime_type: Some("multipart/alternative".to_string()),
        },
    };
    assert_eq!(
        parse_message(msg, 80),
        Email {
            id: "18c2".to_string(),
            subject: "Weekly news".to_string(),
            body: "Rich & news\n".to_string(),
            unsubscribe_link: Some(UnsubscribeTarget::HttpLink(
                "https://news.example/leave".to_string()
            )),
        }
    );
}

#[test]
fn a_bare_message_is_normalised_to_defaults() {
    let msg = GmailMessage { id: "1".to_string(), payload: payload(nothing(), None) };
    assert_eq!(
        parse_message(msg, 80),
        Email {
            id: "1".to_string(),
            subject: String::new(),
            body: PLACEHOLDER.to_string(),
            unsubscribe_link: None,
        }
    );
}
