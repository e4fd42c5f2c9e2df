use hathora_client::token::extract_user_id;
use hathora_client::HathoraError;

#[test]
fn extract_user_id_round_trips_through_real_base64() {
    // Build a synthetic three-part token whose middle segment encodes
    // {"id":"u1"}, using the same base64url encoder the decoder relies on.
    let claims = b"{\"id\":\"u1\"}";
    let seg = base64::encode_config(claims, base64::URL_SAFE_NO_PAD);
    let token = format!("header.{}.sig", seg);
    assert_eq!(extract_user_id(&token).unwrap(), "u1");
}

#[test]
fn extract_user_id_known_segment() {
    // "eyJpZCI6InUxIn0" is the base64url encoding of {"id":"u1"}.
    assert_eq!(extract_user_id("abc.eyJpZCI6InUxIn0.sig").unwrap(), "u1");
}

#[test]
fn extract_user_id_two_segments_only() {
    // The middle segment may be the last: two dot-segments suffice.
    assert_eq!(extract_user_id("abc.eyJpZCI6InUxIn0").unwrap(), "u1");
}

#[test]
fn token_without_dot_is_malformed() {
    assert_eq!(extract_user_id("notoken"), Err(HathoraError::MalformedToken));
    assert_eq!(extract_user_id(""), Err(HathoraError::MalformedToken));
}

#[test]
fn segment_not_base64url_is_malformed() {
    assert_eq!(extract_user_id("a.!!!.b"), Err(HathoraError::MalformedToken));
    // A single leftover symbol is an illegal base64 length.
    assert_eq!(extract_user_id("a.abcde.b"), Err(HathoraError::MalformedToken));
    // Padded base64 is not valid unpadded base64url.
    assert_eq!(extract_user_id("a.eyJpZCI6InUxIn0=.b"), Err(HathoraError::MalformedToken));
}

#[test]
fn segment_with_wrong_json_shape_is_malformed() {
    // "eyJ1c2VyIjoidTEifQ" is the base64url encoding of {"user":"u1"}.
    let seg = base64::encode_config(b"{\"user\":\"u1\"}", base64::URL_SAFE_NO_PAD);
    let token = format!("h.{}.s", seg);
    assert_eq!(extract_user_id(&token), Err(HathoraError::MalformedToken));
    // Not JSON at all.
    let seg2 = base64::encode_config(b"hello", base64::URL_SAFE_NO_PAD);
    let token2 = format!("h.{}.s", seg2);
    assert_eq!(extract_user_id(&token2), Err(HathoraError::MalformedToken));
}

#[test]
fn base64url_validity_checker() {
    assert!(hathora_client::b64url::b64url_valid(b""));
    assert!(hathora_client::b64url::b64url_valid(b"eyJpZCI6InUxIn0"));
    assert!(!hathora_client::b64url::b64url_valid(b"a"));
    assert!(!hathora_client::b64url::b64url_valid(b"a==="));
    // 'B' is 1: its low four bits are not zero in a two-symbol tail.
    assert!(!hathora_client::b64url::b64url_valid(b"aB"));
    assert!(hathora_client::b64url::b64url_valid(b"aQ"));
}

#[test]
fn decoded_segment_bytes_differ_from_input() {
    // The decode is a real transformation, not a pass-through.
    let decoded = hathora_client::b64url::b64url_decode_exec(b"eyJpZCI6InUxIn0").unwrap();
    assert_eq!(decoded, b"{\"id\":\"u1\"}".to_vec());
}
