//! Decoding of inline message bodies: base64 text in the URL-safe alphabet
//! becomes bytes, and bytes become UTF-8 text.

use base64::Engine;
use vstd::prelude::*;
use vstd::utf8::*;

verus! {

/// Why an encoded body could not be turned into text.
#[derive(Debug, Clone, Copy, PartialEq, Eq, Structural)]
pub enum DecodingError {
    /// The text is not well-formed base64.
    MalformedBase64,
    /// The decoded bytes are not UTF-8.
    InvalidUtf8,
}

/// The error of the `base64` crate's decoders, carried through unread.
#[verifier::external_type_specification]
#[verifier::external_body]
pub struct ExBase64DecodeError(base64::DecodeError);

/// The error of `String::from_utf8`, carried through unread.
#[verifier::external_type_specification]
#[verifier::external_body]
pub struct ExFromUtf8Error(std::string::FromUtf8Error);

/// The bytes that the standard base64 engine of the `base64` crate decodes
/// `text` to, or `None` where it rejects `text`.
pub uninterp spec fn base64_standard_decoding(text: Seq<char>) -> Option<Seq<u8>>;

/// `Engine::decode` of the `base64` crate on its `STANDARD` engine (standard
/// alphabet, canonical padding required). Whether it accepts the text, and
/// the bytes it then returns, depend on the text alone.
#[verifier::external_body]
fn base64_decode_standard(text: &str) -> (r: Result<Vec<u8>, base64::DecodeError>)
    ensures
        match r {
            Ok(bytes) => base64_standard_decoding(text@) == Some(bytes@),
            Err(_) => base64_standard_decoding(text@) is None,
        },
{
    base64::engine::general_purpose::STANDARD.decode(text)
}

/// `String::from_utf8` of std succeeds exactly on valid UTF-8, and the
/// string then holds the characters that the bytes encode.
pub assume_specification[ String::from_utf8 ](bytes: Vec<u8>) -> (r: Result<
    String,
    std::string::FromUtf8Error,
>)
    ensures
        r is Ok <==> valid_utf8(bytes@),
        r is Ok ==> r->Ok_0@ == decode_utf8(bytes@),
;

/// A character of the URL-safe alphabet as the standard alphabet has it.
pub open spec fn standard_char(c: char) -> char {
    if c == '-' {
        '+'
    } else if c == '_' {
        '/'
    } else {
        c
    }
}

/// A character of the standard alphabet as the URL-safe alphabet has it.
pub open spec fn url_safe_char(c: char) -> char {
    if c == '+' {
        '-'
    } else if c == '/' {
        '_'
    } else {
        c
    }
}

/// `text` with `-` and `_` replaced by `+` and `/`.
pub open spec fn standard_alphabet(text: Seq<char>) -> Seq<char> {
    text.map_values(|c: char| standard_char(c))
}

/// `text` with `+` and `/` replaced by `-` and `_`.
pub open spec fn url_safe_alphabet(text: Seq<char>) -> Seq<char> {
    text.map_values(|c: char| url_safe_char(c))
}

/// The bytes that a URL-safe base64 text stands for.
pub open spec fn decoded_bytes(text: Seq<char>) -> Result<Seq<u8>, DecodingError> {
    match base64_standard_decoding(standard_alphabet(text)) {
        Some(bytes) => Ok(bytes),
        None => Err(DecodingError::MalformedBase64),
    }
}

/// The text that a sequence of bytes holds in UTF-8.
pub open spec fn utf8_text(bytes: Seq<u8>) -> Result<Seq<char>, DecodingError> {
    if valid_utf8(bytes) {
        Ok(decode_utf8(bytes))
    } else {
        Err(DecodingError::InvalidUtf8)
    }
}

/// The text that a URL-safe base64 text stands for.
pub open spec fn decoded_text(text: Seq<char>) -> Result<Seq<char>, DecodingError> {
    match decoded_bytes(text) {
        Ok(bytes) => utf8_text(bytes),
        Err(e) => Err(e),
    }
}

/// Putting a text into the standard alphabet twice is the same as doing it
/// once, so a text that is already in the standard alphabet decodes to the
/// same bytes as its URL-safe form.
pub proof fn lemma_decode_ignores_alphabet(text: Seq<char>)
    ensures
        standard_alphabet(standard_alphabet(text)) == standard_alphabet(text),
        decoded_bytes(standard_alphabet(text)) == decoded_bytes(text),
        decoded_text(standard_alphabet(text)) == decoded_text(text),
{
}

/// A text in the URL-safe alphabet is found again when its standard form is
/// put back into the URL-safe alphabet.
pub proof fn lemma_alphabet_round_trip(text: Seq<char>)
    requires
        forall|i: int| 0 <= i < text.len() ==> text[i] != '+' && text[i] != '/',
    ensures
        url_safe_alphabet(standard_alphabet(text)) == text,
{
}

/// `text` in the standard base64 alphabet.
pub fn to_standard_alphabet(text: &str) -> (r: String)
    ensures
        r@ == standard_alphabet(text@),
{
    let mut r = String::new();
    for c in it: text.chars()
        invariant
            r@ == standard_alphabet(it.seq().take(it.index())),
    {
        if c == '-' {
            r.push('+');
        } else if c == '_' {
            r.push('/');
        } else {
            r.push(c);
        }
    }
    r
}

/// What the decoder reports for an outcome of the base64 engine.
pub fn bytes_or_error(outcome: Result<Vec<u8>, base64::DecodeError>) -> (r: Result<
    Vec<u8>,
    DecodingError,
>)
    ensures
        match outcome {
            Ok(bytes) => r == Ok::<Vec<u8>, DecodingError>(bytes),
            Err(_) => r == Err::<Vec<u8>, DecodingError>(DecodingError::MalformedBase64),
        },
{
    match outcome {
        Ok(bytes) => Ok(bytes),
        Err(_) => Err(DecodingError::MalformedBase64),
    }
}

/// Decodes base64 text in the URL-safe alphabet.
pub fn decode(text: &str) -> (r: Result<Vec<u8>, DecodingError>)
    ensures
        match r {
            Ok(bytes) => decoded_bytes(text@) == Ok::<Seq<u8>, DecodingError>(bytes@),
            Err(e) => decoded_bytes(text@) == Err::<Seq<u8>, DecodingError>(e),
        },
{
    let standard = to_standard_alphabet(text);
    bytes_or_error(base64_decode_standard(standard.as_str()))
}

/// The text that `bytes` hold in UTF-8.
pub fn text_of(bytes: Vec<u8>) -> (r: Result<String, DecodingError>)
    ensures
        match r {
            Ok(s) => utf8_text(bytes@) == Ok::<Seq<char>, DecodingError>(s@),
            Err(e) => utf8_text(bytes@) == Err::<Seq<char>, DecodingError>(e),
        },
{
    match String::from_utf8(bytes) {
        Ok(s) => Ok(s),
        Err(_) => Err(DecodingError::InvalidUtf8),
    }
}

/// Decodes base64 text in the URL-safe alphabet to the UTF-8 text it holds.
pub fn decode_text(text: &str) -> (r: Result<String, DecodingError>)
    ensures
        match r {
            Ok(s) => decoded_text(text@) == Ok::<Seq<char>, DecodingError>(s@),
            Err(e) => decoded_text(text@) == Err::<Seq<char>, DecodingError>(e),
        },
{
    match decode(text) {
        Ok(bytes) => text_of(bytes),
        Err(e) => Err(e),
    }
}

} // verus!
