//! Messages as the mail service sends them, and what the client keeps of
//! each: its subject, a readable body, and where to unsubscribe.

use crate::decoder::{decode_text, decoded_text, DecodingError};
use crate::renderer::{html_text, html_to_text, render, rendered};
use crate::text::{
    chars_of, has_prefix, same_text, slice_of, split, split_at, starts_with, string_of, trim,
    trimmed, views,
};
use vstd::prelude::*;
use vstd::string::*;

verus! {

/// One header line of a message.
#[derive(Debug, PartialEq, Eq)]
pub struct Header {
    pub name: String,
    pub value: String,
}

/// The inline content of a payload node: base64 text in the URL-safe
/// alphabet, and the size that the service declares for it.
#[derive(Debug, PartialEq, Eq)]
pub struct Body {
    pub data: Option<String>,
    pub size: Option<i32>,
}

/// A node below the root of a message's payload tree.
#[derive(Debug, PartialEq, Eq)]
pub struct Part {
    pub mime_type: String,
    pub body: Body,
    pub parts: Option<Vec<Part>>,
}

/// The root of a message's payload tree, which also carries the headers.
#[derive(Debug, PartialEq, Eq)]
pub struct Payload {
    pub headers: Vec<Header>,
    pub parts: Option<Vec<Part>>,
    pub body: Body,
    pub mime_type: Option<String>,
}

/// A message as the service sends it.
#[derive(Debug, PartialEq, Eq)]
pub struct GmailMessage {
    pub id: String,
    pub payload: Payload,
}

/// A header line as a mathematical value.
pub struct HeaderView {
    pub name: Seq<char>,
    pub value: Seq<char>,
}

/// The inline content of a node as a mathematical value.
pub struct BodyView {
    pub data: Option<Seq<char>>,
    pub size: Option<i32>,
}

/// A node below the root as a mathematical value.
pub struct PartView {
    pub mime_type: Seq<char>,
    pub body: BodyView,
    pub parts: Option<Seq<PartView>>,
}

/// The root of a payload tree as a mathematical value.
pub struct PayloadView {
    pub headers: Seq<HeaderView>,
    pub parts: Option<Seq<PartView>>,
    pub body: BodyView,
    pub mime_type: Option<Seq<char>>,
}

/// A message of the service as a mathematical value.
pub struct MessageView {
    pub id: Seq<char>,
    pub payload: PayloadView,
}

impl View for Header {
    type V = HeaderView;

    open spec fn view(&self) -> HeaderView {
        HeaderView { name: self.name@, value: self.value@ }
    }
}

impl View for Body {
    type V = BodyView;

    open spec fn view(&self) -> BodyView {
        BodyView {
            data: match self.data {
                Some(data) => Some(data@),
                None => None,
            },
            size: self.size,
        }
    }
}

/// The views of a sequence of headers.
pub open spec fn header_views(headers: Seq<Header>) -> Seq<HeaderView> {
    headers.map_values(|h: Header| h@)
}

/// The views of a sequence of parts.
pub open spec fn part_views(parts: Seq<Part>) -> Seq<PartView>
    decreases parts, 0nat,
{
    Seq::new(
        parts.len(),
        |i: int|
            if 0 <= i < parts.len() {
                parts[i].view()
            } else {
                arbitrary()
            },
    )
}

impl View for Part {
    type V = PartView;

    open spec fn view(&self) -> PartView
        decreases self, 1nat,
    {
        PartView {
            mime_type: self.mime_type@,
            body: self.body@,
            parts: match self.parts {
                Some(parts) => Some(part_views(parts@)),
                None => None,
            },
        }
    }
}

impl View for Payload {
    type V = PayloadView;

    open spec fn view(&self) -> PayloadView {
        PayloadView {
            headers: header_views(self.headers@),
            parts: match self.parts {
                Some(parts) => Some(part_views(parts@)),
                None => None,
            },
            body: self.body@,
            mime_type: match self.mime_type {
                Some(mime_type) => Some(mime_type@),
                None => None,
            },
        }
    }
}

impl View for GmailMessage {
    type V = MessageView;

    open spec fn view(&self) -> MessageView {
        MessageView { id: self.id@, payload: self.payload@ }
    }
}

/// Where a message says one can unsubscribe.
#[derive(Debug, PartialEq, Eq)]
pub enum UnsubscribeTarget {
    /// A web address to open.
    HttpLink(String),
    /// An address to write to, without the `mailto:` in front of it.
    MailtoLink(String),
    /// A directive of neither kind, as the header gave it.
    Unsupported(String),
}

/// An unsubscribe target as a mathematical value.
pub enum Target {
    HttpLink(Seq<char>),
    MailtoLink(Seq<char>),
    Unsupported(Seq<char>),
}

impl View for UnsubscribeTarget {
    type V = Target;

    open spec fn view(&self) -> Target {
        match self {
            UnsubscribeTarget::HttpLink(url) => Target::HttpLink(url@),
            UnsubscribeTarget::MailtoLink(address) => Target::MailtoLink(address@),
            UnsubscribeTarget::Unsupported(raw) => Target::Unsupported(raw@),
        }
    }
}

/// What the client keeps of a message. The body is plain text and is never
/// empty: a placeholder stands where nothing readable was found.
#[derive(Debug, PartialEq, Eq)]
pub struct Email {
    pub id: String,
    pub subject: String,
    pub body: String,
    pub unsubscribe_link: Option<UnsubscribeTarget>,
}

/// A kept message as a mathematical value.
pub struct EmailView {
    pub id: Seq<char>,
    pub subject: Seq<char>,
    pub body: Seq<char>,
    pub unsubscribe_link: Option<Target>,
}

impl View for Email {
    type V = EmailView;

    open spec fn view(&self) -> EmailView {
        EmailView {
            id: self.id@,
            subject: self.subject@,
            body: self.body@,
            unsubscribe_link: match self.unsubscribe_link {
                Some(target) => Some(target@),
                None => None,
            },
        }
    }
}

/// The views of a sequence of kept messages.
pub open spec fn email_views(emails: Seq<Email>) -> Seq<EmailView> {
    emails.map_values(|e: Email| e@)
}

impl EmailView {
    /// A kept message has a body to show.
    pub open spec fn is_normalized(self) -> bool {
        self.body.len() > 0
    }
}

/// The value of the first header from position `i` on whose name is exactly
/// `name`.
pub open spec fn header_value_from(headers: Seq<HeaderView>, name: Seq<char>, i: int) -> Option<
    Seq<char>,
>
    decreases headers.len() - i,
{
    if i < 0 || i >= headers.len() {
        None
    } else if headers[i].name == name {
        Some(headers[i].value)
    } else {
        header_value_from(headers, name, i + 1)
    }
}

/// The value of the first header whose name is exactly `name`.
pub open spec fn header_value(headers: Seq<HeaderView>, name: Seq<char>) -> Option<Seq<char>> {
    header_value_from(headers, name, 0)
}

/// The subject of a message: the value of its first `Subject` header, or
/// nothing.
pub open spec fn subject_of(headers: Seq<HeaderView>) -> Seq<char> {
    match header_value(headers, "Subject"@) {
        Some(value) => value,
        None => Seq::empty(),
    }
}

/// A directive that stands in angle brackets.
pub open spec fn bracketed(directive: Seq<char>) -> bool {
    directive.len() >= 2 && directive.first() == '<' && directive.last() == '>'
}

/// What stands between the angle brackets of a bracketed directive.
pub open spec fn unbracketed(directive: Seq<char>) -> Seq<char> {
    directive.subrange(1, directive.len() - 1)
}

/// Whether a piece of the header is a candidate: bracketed once trimmed,
/// and, where only web addresses are wanted, beginning with `http` inside.
pub open spec fn is_candidate(piece: Seq<char>, http_only: bool) -> bool {
    bracketed(trimmed(piece)) && (http_only ==> has_prefix(unbracketed(trimmed(piece)), "http"@))
}

/// The inside of the first candidate among `pieces` from position `i` on.
pub open spec fn first_candidate_from(pieces: Seq<Seq<char>>, http_only: bool, i: int) -> Option<
    Seq<char>,
>
    decreases pieces.len() - i,
{
    if i < 0 || i >= pieces.len() {
        None
    } else if is_candidate(pieces[i], http_only) {
        Some(unbracketed(trimmed(pieces[i])))
    } else {
        first_candidate_from(pieces, http_only, i + 1)
    }
}

/// The directive that wins in the value of a `List-Unsubscribe` header: the
/// first bracketed one that begins with `http`, else the first bracketed
/// one, else the whole value.
pub open spec fn winning_directive(value: Seq<char>) -> Seq<char> {
    let pieces = split(value, ',');
    match first_candidate_from(pieces, true, 0) {
        Some(inside) => inside,
        None => match first_candidate_from(pieces, false, 0) {
            Some(inside) => inside,
            None => value,
        },
    }
}

/// The kind of target that a directive names.
pub open spec fn classified(directive: Seq<char>) -> Target {
    if has_prefix(directive, "http"@) {
        Target::HttpLink(directive)
    } else if has_prefix(directive, "mailto:"@) {
        Target::MailtoLink(directive.subrange("mailto:"@.len() as int, directive.len() as int))
    } else {
        Target::Unsupported(directive)
    }
}

/// The unsubscribe target that a list of headers names, if any.
pub open spec fn unsubscribe_target_of(headers: Seq<HeaderView>) -> Option<Target> {
    match header_value(headers, "List-Unsubscribe"@) {
        Some(value) => Some(classified(winning_directive(value))),
        None => None,
    }
}

/// What `first_candidate_from` finds is the inside of a candidate at or
/// after `i` with no candidate between `i` and it; it finds nothing only
/// where there is no candidate from `i` on.
pub proof fn lemma_first_candidate(pieces: Seq<Seq<char>>, http_only: bool, i: int)
    requires
        0 <= i <= pieces.len(),
    ensures
        match first_candidate_from(pieces, http_only, i) {
            Some(inside) => exists|j: int|
                i <= j < pieces.len() && is_candidate(#[trigger] pieces[j], http_only) && inside
                    == unbracketed(trimmed(pieces[j])) && forall|k: int|
                    i <= k < j ==> !is_candidate(#[trigger] pieces[k], http_only),
            None => forall|j: int|
                i <= j < pieces.len() ==> !is_candidate(#[trigger] pieces[j], http_only),
        },
    decreases pieces.len() - i,
{
    if i < pieces.len() && !is_candidate(pieces[i], http_only) {
        lemma_first_candidate(pieces, http_only, i + 1);
    }
}

/// A web address wins over everything else. Where some bracketed directive
/// of a header value begins with `http`, the target is a web link, whatever
/// stands before it.
pub proof fn lemma_http_directive_wins(value: Seq<char>, j: int)
    requires
        0 <= j < split(value, ',').len(),
        is_candidate(split(value, ',')[j], true),
    ensures
        classified(winning_directive(value)) is HttpLink,
        has_prefix(winning_directive(value), "http"@),
{
    lemma_first_candidate(split(value, ','), true, 0);
}

/// A header value without a bracketed directive is classified as it stands.
pub proof fn lemma_bare_value_wins(value: Seq<char>)
    requires
        forall|j: int|
            0 <= j < split(value, ',').len() ==> !bracketed(
                trimmed(#[trigger] split(value, ',')[j]),
            ),
    ensures
        winning_directive(value) == value,
{
    let pieces = split(value, ',');
    lemma_first_candidate(pieces, true, 0);
    lemma_first_candidate(pieces, false, 0);
}

/// The value of the first header whose name is exactly `name`.
pub fn find_header<'a>(headers: &'a [Header], name: &str) -> (r: Option<&'a String>)
    ensures
        match r {
            Some(value) => header_value(header_views(headers@), name@) == Some(value@),
            None => header_value(header_views(headers@), name@) is None,
        },
{
    let mut i: usize = 0;
    while i < headers.len()
        invariant
            i <= headers.len(),
            header_value(header_views(headers@), name@) == header_value_from(
                header_views(headers@),
                name@,
                i as int,
            ),
        decreases headers.len() - i,
    {
        if same_text(headers[i].name.as_str(), name) {
            return Some(&headers[i].value);
        }
        i += 1;
    }
    None
}

/// The subject of a message: the value of its first header named exactly
/// `Subject`, or the empty string where there is none.
pub fn extract_subject(headers: &[Header]) -> (r: String)
    ensures
        r@ == subject_of(header_views(headers@)),
{
    match find_header(headers, "Subject") {
        Some(value) => value.clone(),
        None => String::new(),
    }
}

/// The inside of the first candidate among `pieces`.
pub fn first_candidate(pieces: &Vec<Vec<char>>, http_only: bool) -> (r: Option<Vec<char>>)
    ensures
        match r {
            Some(inside) => first_candidate_from(views(pieces@), http_only, 0) == Some(inside@),
            None => first_candidate_from(views(pieces@), http_only, 0) is None,
        },
{
    let http = chars_of("http");
    let mut i: usize = 0;
    while i < pieces.len()
        invariant
            i <= pieces.len(),
            http@ == "http"@,
            first_candidate_from(views(pieces@), http_only, 0) == first_candidate_from(
                views(pieces@),
                http_only,
                i as int,
            ),
        decreases pieces.len() - i,
    {
        let directive = trim(&pieces[i]);
        let n: usize = directive.len();
        if n >= 2 && directive[0] == '<' && directive[n - 1] == '>' {
            let inside = slice_of(&directive, 1, n - 1);
            if !http_only || starts_with(&inside, &http) {
                return Some(inside);
            }
        }
        i += 1;
    }
    None
}

/// The directive that wins in the value of a `List-Unsubscribe` header.
pub fn choose_directive(value: &str) -> (r: Vec<char>)
    ensures
        r@ == winning_directive(value@),
{
    let chars = chars_of(value);
    let pieces = split_at(&chars, ',');
    match first_candidate(&pieces, true) {
        Some(inside) => inside,
        None => match first_candidate(&pieces, false) {
            Some(inside) => inside,
            None => chars,
        },
    }
}

/// The kind of target that a directive names: a web address where it
/// begins with `http`, a mail address where it begins with `mailto:`, and
/// unsupported otherwise.
pub fn classify(directive: &Vec<char>) -> (r: UnsubscribeTarget)
    ensures
        r@ == classified(directive@),
{
    let mailto = chars_of("mailto:");
    if starts_with(directive, &chars_of("http")) {
        UnsubscribeTarget::HttpLink(string_of(directive))
    } else if starts_with(directive, &mailto) {
        let address = slice_of(directive, mailto.len(), directive.len());
        UnsubscribeTarget::MailtoLink(string_of(&address))
    } else {
        UnsubscribeTarget::Unsupported(string_of(directive))
    }
}

/// The unsubscribe target of a message, from its first header named
/// exactly `List-Unsubscribe`; `None` where there is no such header.
pub fn extract_unsubscribe_link(headers: &[Header]) -> (r: Option<UnsubscribeTarget>)
    ensures
        match r {
            Some(target) => unsubscribe_target_of(header_views(headers@)) == Some(target@),
            None => unsubscribe_target_of(header_views(headers@)) is None,
        },
{
    match find_header(headers, "List-Unsubscribe") {
        Some(value) => Some(classify(&choose_directive(value.as_str()))),
        None => None,
    }
}

/// What stands for the body of a message in which nothing readable was
/// found.
pub open spec fn no_content() -> Seq<char> {
    "No readable content found in the email."@
}

/// The readable form of an encoded body: decoded, then rendered.
pub open spec fn readable(encoded: Seq<char>, width: usize) -> Result<Seq<char>, DecodingError> {
    match decoded_text(encoded) {
        Ok(text) => Ok(rendered(text, width)),
        Err(e) => Err(e),
    }
}

/// The readable content that a node carries inline, if it carries any that
/// decodes.
pub open spec fn body_content(body: BodyView, width: usize) -> Option<Seq<char>> {
    match body.data {
        Some(data) => match readable(data, width) {
            Ok(content) => Some(content),
            Err(_) => None,
        },
        None => None,
    }
}

/// The inline content of a node, or nothing.
pub open spec fn content_or_nothing(body: BodyView, width: usize) -> Seq<char> {
    match body_content(body, width) {
        Some(content) => content,
        None => Seq::empty(),
    }
}

/// What one level of parts yields once all are seen: its HTML, rendered,
/// where it has any; else its plain text; else the placeholder.
pub open spec fn preferred(plain: Seq<char>, html: Seq<char>, width: usize) -> Seq<char> {
    if html.len() > 0 {
        html_text(html, width)
    } else if plain.len() > 0 {
        plain
    } else {
        no_content()
    }
}

/// The content of `parts` from position `i` on, with the plain text and the
/// HTML gathered before `i`. A `text/plain` or `text/html` part adds its
/// inline content to what is gathered. Any other part is searched through
/// its own parts, and what is found there, unless empty, is the content.
pub open spec fn scan_parts(
    parts: Seq<PartView>,
    i: int,
    plain: Seq<char>,
    html: Seq<char>,
    width: usize,
) -> Seq<char>
    decreases parts, parts.len() - i,
{
    if i < 0 || i >= parts.len() {
        preferred(plain, html, width)
    } else if parts[i].mime_type == "text/plain"@ {
        scan_parts(parts, i + 1, plain + content_or_nothing(parts[i].body, width), html, width)
    } else if parts[i].mime_type == "text/html"@ {
        scan_parts(parts, i + 1, plain, html + content_or_nothing(parts[i].body, width), width)
    } else {
        let nested = match parts[i].parts {
            Some(inner) => scan_parts(inner, 0, Seq::empty(), Seq::empty(), width),
            None => Seq::empty(),
        };
        if nested.len() > 0 {
            nested
        } else {
            scan_parts(parts, i + 1, plain, html, width)
        }
    }
}

/// The content of one level of parts.
pub open spec fn parts_content(parts: Seq<PartView>, width: usize) -> Seq<char> {
    scan_parts(parts, 0, Seq::empty(), Seq::empty(), width)
}

/// `content`, or the placeholder where it is empty.
pub open spec fn or_no_content(content: Seq<char>) -> Seq<char> {
    if content.len() > 0 {
        content
    } else {
        no_content()
    }
}

/// The body shown for a message: the inline content of the root where it
/// decodes, else the content of its parts, and never the empty text.
pub open spec fn body_of(payload: PayloadView, width: usize) -> Seq<char> {
    or_no_content(
        match body_content(payload.body, width) {
            Some(content) => content,
            None => match payload.parts {
                Some(parts) => parts_content(parts, width),
                None => no_content(),
            },
        },
    )
}

/// The placeholder is not the empty text.
pub proof fn lemma_no_content_is_not_empty()
    ensures
        no_content().len() > 0,
{
    reveal_strlit("No readable content found in the email.");
}

/// The body shown for a message is never empty, whatever its payload holds.
pub proof fn lemma_body_is_never_empty(payload: PayloadView, width: usize)
    ensures
        body_of(payload, width).len() > 0,
{
    lemma_no_content_is_not_empty();
}

/// HTML wins over plain text. Where a message carries nothing readable at
/// its root and has two parts, one `text/plain` and one `text/html` in
/// either order, and the HTML part has content, the body is what that
/// content renders to, whatever the plain part holds.
pub proof fn lemma_html_is_preferred(payload: PayloadView, width: usize, plain: int, html: int)
    requires
        body_content(payload.body, width) is None,
        payload.parts is Some,
        payload.parts->0.len() == 2,
        (plain == 0 && html == 1) || (plain == 1 && html == 0),
        payload.parts->0[plain].mime_type == "text/plain"@,
        payload.parts->0[html].mime_type == "text/html"@,
        content_or_nothing(payload.parts->0[html].body, width).len() > 0,
    ensures
        body_of(payload, width) == or_no_content(
            html_text(content_or_nothing(payload.parts->0[html].body, width), width),
        ),
{
    let parts = payload.parts->0;
    let a = content_or_nothing(parts[plain].body, width);
    let b = content_or_nothing(parts[html].body, width);
    let none = Seq::<char>::empty();
    reveal_strlit("text/plain");
    reveal_strlit("text/html");
    assert("text/plain"@.len() != "text/html"@.len());
    if plain == 0 {
        assert(scan_parts(parts, 1, a, none, width) == scan_parts(parts, 2, a, none + b, width));
    } else {
        assert(scan_parts(parts, 1, none, b, width) == scan_parts(parts, 2, none + a, b, width));
    }
}

/// Decodes an encoded body and renders it to plain text of `width` columns.
pub fn decode_and_render_body(encoded_body: &str, width: usize) -> (r: Result<
    String,
    DecodingError,
>)
    ensures
        match r {
            Ok(content) => readable(encoded_body@, width) == Ok::<Seq<char>, DecodingError>(
                content@,
            ),
            Err(e) => readable(encoded_body@, width) == Err::<Seq<char>, DecodingError>(e),
        },
{
    match decode_text(encoded_body) {
        Ok(text) => Ok(render(text.as_str(), width)),
        Err(e) => Err(e),
    }
}

/// The readable content that a node carries inline. A node without inline
/// data, or with data that does not decode, has none.
pub fn get_content_from_body(body: &Body, width: usize) -> (r: Option<String>)
    ensures
        match r {
            Some(content) => body_content(body@, width) == Some(content@),
            None => body_content(body@, width) is None,
        },
{
    match &body.data {
        Some(data) => match decode_and_render_body(data.as_str(), width) {
            Ok(content) => Some(content),
            Err(_) => None,
        },
        None => None,
    }
}

/// What one level of parts yields from the plain text and the HTML gathered
/// on it: the HTML, rendered, where there is any; else the plain text; else
/// the placeholder.
pub fn prefer_html(text_plain: String, text_html: String, width: usize) -> (r: String)
    ensures
        r@ == preferred(text_plain@, text_html@, width),
{
    if !text_html.as_str().is_empty() {
        html_to_text(text_html.as_str(), width)
    } else if !text_plain.as_str().is_empty() {
        text_plain
    } else {
        "No readable content found in the email.".to_owned()
    }
}

/// The content of one level of parts, searched in order and depth first.
pub fn get_content_from_parts(parts: &Vec<Part>, width: usize) -> (r: String)
    ensures
        r@ == parts_content(part_views(parts@), width),
    decreases parts,
{
    let mut text_plain = String::new();
    let mut text_html = String::new();
    let mut i: usize = 0;
    while i < parts.len()
        invariant
            i <= parts.len(),
            parts_content(part_views(parts@), width) == scan_parts(
                part_views(parts@),
                i as int,
                text_plain@,
                text_html@,
                width,
            ),
        decreases parts.len() - i,
    {
        let part = &parts[i];
        if same_text(part.mime_type.as_str(), "text/plain") {
            if let Some(content) = get_content_from_body(&part.body, width) {
                text_plain.append(content.as_str());
            }
        } else if same_text(part.mime_type.as_str(), "text/html") {
            if let Some(content) = get_content_from_body(&part.body, width) {
                text_html.append(content.as_str());
            }
        } else {
            if let Some(inner) = &part.parts {
                let content = get_content_from_parts(inner, width);
                if !content.as_str().is_empty() {
                    return content;
                }
            }
        }
        i += 1;
    }
    prefer_html(text_plain, text_html, width)
}

/// `content`, or the placeholder where it is empty.
pub fn or_placeholder(content: String) -> (r: String)
    ensures
        r@ == or_no_content(content@),
        r@.len() > 0,
{
    proof {
        lemma_no_content_is_not_empty();
    }
    if content.as_str().is_empty() {
        "No readable content found in the email.".to_owned()
    } else {
        content
    }
}

/// The body shown for a message, as plain text of `width` columns: the
/// inline content of the root where it decodes, else the content of its
/// parts, else the placeholder. It is never empty.
pub fn extract_body(payload: &Payload, width: usize) -> (r: String)
    ensures
        r@ == body_of(payload@, width),
        r@.len() > 0,
{
    if let Some(content) = get_content_from_body(&payload.body, width) {
        return or_placeholder(content);
    }
    if let Some(parts) = &payload.parts {
        return or_placeholder(get_content_from_parts(parts, width));
    }
    or_placeholder("No readable content found in the email.".to_owned())
}

/// What is kept of a message, with its body rendered to `width` columns.
pub open spec fn normalized(msg: MessageView, width: usize) -> EmailView {
    EmailView {
        id: msg.id,
        subject: subject_of(msg.payload.headers),
        body: body_of(msg.payload, width),
        unsubscribe_link: unsubscribe_target_of(msg.payload.headers),
    }
}

/// Normalises a message: its identifier, its subject, a readable body of
/// `width` columns, and its unsubscribe target.
pub fn parse_message(msg: GmailMessage, width: usize) -> (email: Email)
    ensures
        email@ == normalized(msg@, width),
        email@.is_normalized(),
{
    let subject = extract_subject(msg.payload.headers.as_slice());
    let unsubscribe_link = extract_unsubscribe_link(msg.payload.headers.as_slice());
    let body = extract_body(&msg.payload, width);
    Email { id: msg.id, subject, body, unsubscribe_link }
}

} // verus!
