use base64::Engine;
use gmail_tui::decoder::{
    bytes_or_error, decode, decode_text, text_of, to_standard_alphabet, DecodingError,
};

fn to_url_safe(standard: &str) -> String {
    standard.replace('+', "-").replace('/', "_")
}

#[test]
fn only_the_two_url_safe_characters_are_replaced() {
    assert_eq!(to_standard_alphabet("a-b_c+d/e="), "a+b/c+d/e=");
    assert_eq!(to_standard_alphabet(""), "");
    assert_eq!(to_standard_alphabet("--__"), "++//");
}

#[test]
fn the_standard_alphabet_is_left_as_it_is() {
    let once = to_standard_alphabet("ab-_cd-_");
    assert_eq!(to_standard_alphabet(&once), once);
}

#[test]
fn decodes_url_safe_text() {
    assert_eq!(decode("-_8="), Ok(vec![0xfb, 0xff]));
    assert_eq!(decode("aGVsbG8="), Ok(b"hello".to_vec()));
    assert_eq!(decode(""), Ok(vec![]));
}

#[test]
fn decodes_standard_text_to_the_same_bytes() {
    assert_eq!(decode("+/8="), decode("-_8="));
}

#[test]
fn decodes_to_utf8_text() {
    assert_eq!(decode_text("aGVsbG8="), Ok("hello".to_string()));
    assert_eq!(decode_text("w6l0w6k="), Ok("été".to_string()));
}

#[test]
fn malformed_base64_is_rejected() {
    assert_eq!(decode("a"), Err(DecodingError::MalformedBase64));
    assert_eq!(decode("aGVsbG8"), Err(DecodingError::MalformedBase64));
    assert_eq!(decode("aGV!bG8="), Err(DecodingError::MalformedBase64));
    assert_eq!(decode_text("not base64!"), Err(DecodingError::MalformedBase64));
}

#[test]
fn bytes_that_are_not_utf8_are_rejected() {
    assert_eq!(decode_text("-_8="), Err(DecodingError::InvalidUtf8));
    assert_eq!(text_of(vec![0xff, 0xfe]), Err(DecodingError::InvalidUtf8));
    assert_eq!(text_of(vec![0x68, 0x69]), Ok("hi".to_string()));
}

#[test]
fn decoding_then_encoding_gives_back_the_url_safe_text() {
    let samples: Vec<Vec<u8>> = vec![
        vec![],
        vec![0],
        vec![0xfb, 0xff],
        vec![0xfb, 0xff, 0xbe],
        b"hello world".to_vec(),
        (0u8..=255).collect(),
    ];
    for bytes in samples {
        let standard = base64::engine::general_purpose::STANDARD.encode(&bytes);
        let url_safe = to_url_safe(&standard);
        let decoded = decode(&url_safe).unwrap();
        assert_eq!(decoded, bytes);
        let again = base64::engine::general_purpose::STANDARD.encode(&decoded);
        assert_eq!(to_url_safe(&again), url_safe);
    }
}

#[test]
fn the_outcome_of_the_engine_is_handed_on() {
    assert_eq!(bytes_or_error(Ok(vec![1, 2, 3])), Ok(vec![1, 2, 3]));
    assert_eq!(bytes_or_error(Ok(vec![])), Ok(vec![]));
    assert_eq!(
        bytes_or_error(Err(base64::DecodeError::InvalidLength)),
        Err(DecodingError::MalformedBase64)
    );
    assert_eq!(
        bytes_or_error(Err(base64::DecodeError::InvalidByte(3, b'!'))),
        Err(DecodingError::MalformedBase64)
    );
}
