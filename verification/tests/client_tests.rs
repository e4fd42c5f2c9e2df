use hathora_client::client::parse_create_response;
use hathora_client::client::parse_login_response;
use hathora_client::HathoraClient;
use hathora_client::HathoraError;

#[test]
fn login_response_token_echoed_verbatim() {
    // Mock coordinator body for an anonymous login.
    let body = b"{\"token\":\"abc.eyJpZCI6InUxIn0.sig\"}";
    let resp = parse_login_response(body).unwrap();
    assert_eq!(resp.token, "abc.eyJpZCI6InUxIn0.sig");
}

#[test]
fn login_then_extract_user_id() {
    let body = b"{\"token\":\"abc.eyJpZCI6InUxIn0.sig\"}";
    let resp = parse_login_response(body).unwrap();
    let user = HathoraClient::get_user_from_token(&resp.token).unwrap();
    assert_eq!(user, "u1");
}

#[test]
fn create_response_state_id_echoed_verbatim() {
    let body = b"{\"stateId\":\"room-42\"}";
    assert_eq!(parse_create_response(body).unwrap(), "room-42");
}

#[test]
fn login_response_with_whitespace() {
    let body = b" { \"token\" : \"t\" } ";
    assert_eq!(parse_login_response(body).unwrap().token, "t");
}

#[test]
fn login_response_with_escapes() {
    let body = b"{\"token\":\"a\\u0041\\n\\\"q\\\\\"}";
    assert_eq!(parse_login_response(body).unwrap().token, "aA\n\"q\\");
}

#[test]
fn login_response_wrong_shape_is_protocol_error() {
    assert_eq!(parse_login_response(b"junk"), Err(HathoraError::Protocol));
    assert_eq!(parse_login_response(b""), Err(HathoraError::Protocol));
    assert_eq!(parse_login_response(b"{\"token\":42}"), Err(HathoraError::Protocol));
    assert_eq!(parse_login_response(b"{\"stateId\":\"x\"}"), Err(HathoraError::Protocol));
    assert_eq!(
        parse_login_response(b"{\"token\":\"a\",\"extra\":\"b\"}"),
        Err(HathoraError::Protocol)
    );
}

#[test]
fn login_response_escaped_slash() {
    let body = b"{\"token\":\"a\\/b\"}";
    assert_eq!(parse_login_response(body).unwrap().token, "a/b");
}

#[test]
fn login_response_non_ascii_unicode_escapes() {
    // \u00e9 names é; the parser decodes it to UTF-8.
    assert_eq!(parse_login_response(b"{\"token\":\"\\u00e9\"}").unwrap().token, "\u{e9}");
    // Uppercase hex digits are accepted too.
    assert_eq!(parse_login_response(b"{\"token\":\"\\u00E9\"}").unwrap().token, "\u{e9}");
    // A three-byte scalar.
    assert_eq!(parse_login_response(b"{\"token\":\"\\u20ac\"}").unwrap().token, "\u{20ac}");
    // A surrogate pair names one supplementary scalar.
    assert_eq!(
        parse_login_response(b"{\"token\":\"\\ud83d\\ude00\"}").unwrap().token,
        "\u{1f600}"
    );
}

#[test]
fn login_response_lone_surrogate_is_protocol_error() {
    assert_eq!(
        parse_login_response(b"{\"token\":\"\\ud83d\"}"),
        Err(HathoraError::Protocol)
    );
    assert_eq!(
        parse_login_response(b"{\"token\":\"\\ude00\"}"),
        Err(HathoraError::Protocol)
    );
    assert_eq!(
        parse_login_response(b"{\"token\":\"\\ud83dx\"}"),
        Err(HathoraError::Protocol)
    );
}

#[test]
fn login_response_duplicate_member_is_protocol_error() {
    // Deliberate strictness: the response is documented as exactly one
    // field, and the grammar rejects anything more.
    assert_eq!(
        parse_login_response(b"{\"token\":\"a\",\"token\":\"b\"}"),
        Err(HathoraError::Protocol)
    );
}

#[test]
fn create_request_carries_token_and_content_type() {
    let client = HathoraClient::new("app1".to_string(), None);
    let req = client.create_request("T", vec![1, 2, 3]);
    assert_eq!(req.url, "https://coordinator.hathora.dev/app1/create");
    assert_eq!(req.authorization, "T");
    assert_eq!(req.content_type, "application/octet-stream");
    assert_eq!(req.body, vec![1, 2, 3]);
}

#[test]
fn login_response_invalid_utf8_value_is_protocol_error() {
    let body: Vec<u8> = vec![
        b'{', b'"', b't', b'o', b'k', b'e', b'n', b'"', b':', b'"', 0xff, b'"', b'}',
    ];
    assert_eq!(parse_login_response(&body), Err(HathoraError::Protocol));
}

#[test]
fn create_response_wrong_key_is_protocol_error() {
    assert_eq!(parse_create_response(b"{\"token\":\"x\"}"), Err(HathoraError::Protocol));
}

#[test]
fn login_urls() {
    let client = HathoraClient::new("app1".to_string(), None);
    assert_eq!(
        client.login_anonymous_url(),
        "https://coordinator.hathora.dev/app1/login/anonymous"
    );
    assert_eq!(
        client.login_nickname_url(),
        "https://coordinator.hathora.dev/app1/login/nickname"
    );
    assert_eq!(client.login_google_url(), "https://coordinator.hathora.dev/app1/login/google");
}

#[test]
fn create_url_with_custom_host() {
    let client = HathoraClient::new("app1".to_string(), Some("example.org:8080".to_string()));
    assert_eq!(client.create_url(), "https://example.org:8080/app1/create");
}

#[test]
fn config_accessors() {
    let client = HathoraClient::new("app1".to_string(), None);
    assert_eq!(client.app_id(), "app1");
    assert_eq!(client.coordinator_host(), "coordinator.hathora.dev");
}
