use hathora_client::transport::connect_url;
use hathora_client::transport::ConnectOutcome;
use hathora_client::transport::Phase;
use hathora_client::transport::ReadEvent;
use hathora_client::transport::SocketKind;
use hathora_client::transport::TransportSession;
use hathora_client::HathoraError;

#[test]
fn handshake_frame_is_canonical_json() {
    let frame = hathora_client::json::handshake_frame("T", "S");
    assert_eq!(frame, b"{\"token\":\"T\",\"stateId\":\"S\"}".to_vec());
}

#[test]
fn handshake_frame_escapes_token() {
    let frame = hathora_client::json::handshake_frame("a\"b\\c\nd\u{1}", "s");
    assert_eq!(
        frame,
        b"{\"token\":\"a\\\"b\\\\c\\nd\\u0001\",\"stateId\":\"s\"}".to_vec()
    );
}

#[test]
fn handshake_frame_empty_fields() {
    let frame = hathora_client::json::handshake_frame("", "");
    assert_eq!(frame, b"{\"token\":\"\",\"stateId\":\"\"}".to_vec());
}

#[test]
fn connect_success_makes_ready() {
    let mut s = TransportSession::new();
    assert!(!s.is_ready());
    let frame = s.connect_begin("tok", "sid").unwrap();
    assert_eq!(frame, b"{\"token\":\"tok\",\"stateId\":\"sid\"}".to_vec());
    s.connect_finish(ConnectOutcome::Established(SocketKind::Plain)).unwrap();
    assert!(s.is_ready());
}

#[test]
fn connect_on_connected_session_fails() {
    let mut s = TransportSession::new();
    s.connect_finish(ConnectOutcome::Established(SocketKind::Tls)).unwrap();
    assert_eq!(s.connect_begin("t", "s"), Err(HathoraError::Connect));
    assert_eq!(
        s.connect_finish(ConnectOutcome::Established(SocketKind::Plain)),
        Err(HathoraError::Connect)
    );
}

#[test]
fn failed_dial_leaves_unconnected() {
    let mut s = TransportSession::new();
    let r = s.connect_finish(ConnectOutcome::DialFailed);
    assert_eq!(r, Err(HathoraError::Connect));
    assert_eq!(s.phase, Phase::Unconnected);
    assert!(!s.is_ready());
}

#[test]
fn unknown_socket_kind_is_distinct_error() {
    let mut s = TransportSession::new();
    let r = s.connect_finish(ConnectOutcome::Established(SocketKind::Unknown));
    assert_eq!(r, Err(HathoraError::UnsupportedSocket));
    assert!(!s.is_ready());
}

#[test]
fn read_would_block_is_not_an_error() {
    let mut s = TransportSession::new();
    s.connect_finish(ConnectOutcome::Established(SocketKind::Plain)).unwrap();
    assert_eq!(s.on_read(ReadEvent::WouldBlock), Ok(None));
}

#[test]
fn read_binary_yields_bytes_and_text_is_unexpected() {
    let mut s = TransportSession::new();
    s.connect_finish(ConnectOutcome::Established(SocketKind::Plain)).unwrap();
    assert_eq!(s.on_read(ReadEvent::Binary(vec![1, 2, 3])), Ok(Some(vec![1, 2, 3])));
    assert_eq!(s.on_read(ReadEvent::NonBinary), Err(HathoraError::UnexpectedFrame));
    assert_eq!(s.on_read(ReadEvent::ChannelFailed), Err(HathoraError::UnexpectedFrame));
}

#[test]
fn write_passes_bytes_unchanged_only_when_ready() {
    let mut s = TransportSession::new();
    assert_eq!(s.write_gate(vec![9]), Err(HathoraError::NotConnected));
    s.connect_finish(ConnectOutcome::Established(SocketKind::Plain)).unwrap();
    assert_eq!(s.write_gate(vec![0, 255, 7]), Ok(vec![0, 255, 7]));
}

#[test]
fn disconnect_invalidates_session() {
    let mut s = TransportSession::new();
    s.connect_finish(ConnectOutcome::Established(SocketKind::Plain)).unwrap();
    assert!(s.is_ready());
    let code = s.close(Some(1000));
    assert_eq!(code, Some(1000));
    assert_eq!(s.phase, Phase::Closed);
    assert!(!s.is_ready());
    assert_eq!(s.write_gate(vec![1]), Err(HathoraError::NotConnected));
    assert_eq!(s.on_read(ReadEvent::Binary(vec![1])), Err(HathoraError::NotConnected));
    assert_eq!(s.on_read(ReadEvent::WouldBlock), Err(HathoraError::NotConnected));
}

#[test]
fn close_code_is_narrowed_to_u16() {
    let mut s = TransportSession::new();
    assert_eq!(s.close(Some(70000)), Some(4464));
    let mut s2 = TransportSession::new();
    assert_eq!(s2.close(Some(-1)), Some(65535));
    let mut s3 = TransportSession::new();
    assert_eq!(s3.close(None), None);
}

#[test]
fn connect_url_shape() {
    assert_eq!(connect_url("coordinator.hathora.dev", "app1"), "wss://coordinator.hathora.dev/connect/app1");
}
