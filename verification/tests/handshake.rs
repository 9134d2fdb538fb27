use mdcs::plugin::instance::{parse_handshake, HandshakeError};

#[test]
fn listening_line_parses_to_connect_address() {
    let parsed = parse_handshake("LISTENING 127.0.0.1:54321").unwrap();
    assert_eq!(parsed.0, "127.0.0.1");
    assert_eq!(parsed.1, 54321);
}

#[test]
fn trailing_newline_is_ignored() {
    let parsed = parse_handshake("LISTENING 127.0.0.1:8080\n").unwrap();
    assert_eq!(parsed.0, "127.0.0.1");
    assert_eq!(parsed.1, 8080);
}

#[test]
fn wrong_prefix_is_a_protocol_violation() {
    assert_eq!(
        parse_handshake("READY 127.0.0.1:54321"),
        Err(HandshakeError::ProtocolViolation)
    );
}

#[test]
fn empty_line_is_a_disconnection() {
    assert_eq!(parse_handshake(""), Err(HandshakeError::Disconnected));
    assert_eq!(parse_handshake("\n"), Err(HandshakeError::Disconnected));
}

#[test]
fn address_without_colon_is_a_protocol_violation() {
    assert_eq!(
        parse_handshake("LISTENING localhost"),
        Err(HandshakeError::ProtocolViolation)
    );
}

#[test]
fn empty_host_is_a_protocol_violation() {
    assert_eq!(
        parse_handshake("LISTENING :8080"),
        Err(HandshakeError::ProtocolViolation)
    );
}

#[test]
fn bad_port_is_a_protocol_violation() {
    assert_eq!(
        parse_handshake("LISTENING 127.0.0.1:"),
        Err(HandshakeError::ProtocolViolation)
    );
    assert_eq!(
        parse_handshake("LISTENING 127.0.0.1:port"),
        Err(HandshakeError::ProtocolViolation)
    );
    assert_eq!(
        parse_handshake("LISTENING 127.0.0.1:65536"),
        Err(HandshakeError::ProtocolViolation)
    );
    assert_eq!(
        parse_handshake("LISTENING 127.0.0.1:999999999999"),
        Err(HandshakeError::ProtocolViolation)
    );
}

#[test]
fn ipv6_style_address_splits_on_last_colon() {
    let parsed = parse_handshake("LISTENING ::1:9000").unwrap();
    assert_eq!(parsed.0, "::1");
    assert_eq!(parsed.1, 9000);
}
