//! The request handshake, percent-decoding and the setup of a tunnel.

use http::{HeaderValue, Request};
use masque_proxy::session::request::MAX_FIELD_NAMES;
use masque_proxy::session::{
    check_connect_udp, inject_protocol_header, parse_connect_udp_target, parse_masque_udp_path,
    percent_decode, SessionError, Setup, SetupAction, SetupEvent,
};

/// A minimal extended CONNECT request for `connect-udp`.
fn connect_udp_request(path: &str) -> Request<()> {
    Request::builder()
        .method("CONNECT")
        .uri(path)
        .header("x-protocol", "connect-udp")
        .body(())
        .unwrap()
}

#[test]
fn handshake_valid_domain_host() {
    let req = connect_udp_request("/.well-known/masque/udp/example.com/443/");
    let (host, port) = parse_connect_udp_target(&req).unwrap();
    assert_eq!(host, "example.com");
    assert_eq!(port, 443);
}

#[test]
fn handshake_valid_ipv4_host() {
    let req = connect_udp_request("/.well-known/masque/udp/192.0.2.1/53/");
    let (host, port) = parse_connect_udp_target(&req).unwrap();
    assert_eq!(host, "192.0.2.1");
    assert_eq!(port, 53);
}

#[test]
fn handshake_valid_percent_encoded_ipv6() {
    let req = connect_udp_request("/.well-known/masque/udp/%5B%3A%3A1%5D/8080/");
    let (host, port) = parse_connect_udp_target(&req).unwrap();
    assert_eq!(host, "[::1]");
    assert_eq!(port, 8080);
}

#[test]
fn handshake_wrong_method_rejected() {
    let req = Request::builder()
        .method("GET")
        .uri("/.well-known/masque/udp/example.com/443/")
        .header("x-protocol", "connect-udp")
        .body(())
        .unwrap();
    let err = parse_connect_udp_target(&req).unwrap_err();
    assert!(matches!(err, SessionError::InvalidHandshake { .. }));
    assert!(err.to_string().contains(":method"));
}

#[test]
fn handshake_wrong_protocol_rejected() {
    let req = Request::builder()
        .method("CONNECT")
        .uri("/.well-known/masque/udp/example.com/443/")
        .header("x-protocol", "websocket")
        .body(())
        .unwrap();
    let err = parse_connect_udp_target(&req).unwrap_err();
    assert!(matches!(err, SessionError::InvalidHandshake { .. }));
    assert!(err.to_string().contains("connect-udp"));
}

#[test]
fn handshake_missing_protocol_header_rejected() {
    let req = Request::builder()
        .method("CONNECT")
        .uri("/.well-known/masque/udp/example.com/443/")
        .body(())
        .unwrap();
    let err = parse_connect_udp_target(&req).unwrap_err();
    assert!(matches!(err, SessionError::InvalidHandshake { .. }));
}

#[test]
fn handshake_wrong_prefix_rejected() {
    let req = connect_udp_request("/proxy/udp/example.com/443/");
    let err = parse_connect_udp_target(&req).unwrap_err();
    assert!(matches!(err, SessionError::ParseError(_)));
}

#[test]
fn handshake_missing_trailing_slash_rejected() {
    let req = connect_udp_request("/.well-known/masque/udp/example.com/443");
    let err = parse_connect_udp_target(&req).unwrap_err();
    assert!(matches!(err, SessionError::ParseError(_)));
}

#[test]
fn handshake_invalid_port_rejected() {
    let req = connect_udp_request("/.well-known/masque/udp/example.com/notaport/");
    let err = parse_connect_udp_target(&req).unwrap_err();
    assert!(matches!(err, SessionError::ParseError(_)));
}

#[test]
fn handshake_port_zero_rejected() {
    let req = connect_udp_request("/.well-known/masque/udp/example.com/0/");
    let err = parse_connect_udp_target(&req).unwrap_err();
    assert!(matches!(err, SessionError::ParseError(_)));
}

#[test]
fn handshake_port_out_of_range_rejected() {
    let req = connect_udp_request("/.well-known/masque/udp/example.com/65536/");
    let err = parse_connect_udp_target(&req).unwrap_err();
    assert!(matches!(err, SessionError::ParseError(_)));
}

#[test]
fn handshake_empty_host_rejected() {
    let req = connect_udp_request("/.well-known/masque/udp//443/");
    let err = parse_connect_udp_target(&req).unwrap_err();
    assert!(
        matches!(err, SessionError::ParseError(_))
            || matches!(err, SessionError::InvalidHandshake { .. })
    );
}

/// The words for what is wrong with a path.
fn path_error(path: &str) -> String {
    match parse_masque_udp_path(path) {
        Err(SessionError::ParseError(words)) => words,
        other => panic!("{other:?}"),
    }
}

#[test]
fn path_error_words() {
    assert_eq!(
        path_error("/udp/h/1/"),
        "path '/udp/h/1/' does not start with '/.well-known/masque/udp/'"
    );
    assert_eq!(path_error(""), "path '' does not start with '/.well-known/masque/udp/'");
    assert_eq!(
        path_error("/.well-known/masque/udp/h/1"),
        "path '/.well-known/masque/udp/h/1' must end with '/'"
    );
    assert_eq!(
        path_error("/.well-known/masque/udp/"),
        "path '/.well-known/masque/udp/' must end with '/'"
    );
    assert_eq!(
        path_error("/.well-known/masque/udp/h/"),
        "path '/.well-known/masque/udp/h/' missing '{host}/{port}' structure"
    );
    assert_eq!(path_error("/.well-known/masque/udp//1/"), "target_host must not be empty");
    assert_eq!(path_error("/.well-known/masque/udp/h/x/"), "invalid port 'x'");
    assert_eq!(path_error("/.well-known/masque/udp/h//"), "invalid port ''");
    assert_eq!(path_error("/.well-known/masque/udp/h/-1/"), "invalid port '-1'");
    assert_eq!(path_error("/.well-known/masque/udp/h/+/"), "invalid port '+'");
    assert_eq!(path_error("/.well-known/masque/udp/h/65536/"), "invalid port '65536'");
    assert_eq!(
        path_error("/.well-known/masque/udp/h/99999999999999999999/"),
        "invalid port '99999999999999999999'"
    );
    assert_eq!(path_error("/.well-known/masque/udp/h/0/"), "port 0 is not valid");
    assert_eq!(
        path_error("/.well-known/masque/udp/h%/1/"),
        "truncated percent-escape at position 1"
    );
}

#[test]
fn path_targets() {
    let cases = [
        ("/.well-known/masque/udp/h/65535/", "h", 65535),
        ("/.well-known/masque/udp/h/1/", "h", 1),
        ("/.well-known/masque/udp/h/00443/", "h", 443),
        ("/.well-known/masque/udp/h/+443/", "h", 443),
        ("/.well-known/masque/udp/2001:db8::1/53/", "2001:db8::1", 53),
        ("/.well-known/masque/udp/a/b/53/", "a/b", 53),
        ("/.well-known/masque/udp/a%2Fb/53/", "a/b", 53),
        ("/.well-known/masque/udp/m\u{fc}nchen/53/", "m\u{fc}nchen", 53),
        ("/.well-known/masque/udp/m%C3%bcnchen/53/", "m\u{fc}nchen", 53),
    ];
    for (path, host, port) in cases {
        assert_eq!(parse_masque_udp_path(path).unwrap(), (host.to_string(), port));
    }
}

#[test]
fn percent_decoding() {
    assert_eq!(percent_decode("plain").unwrap(), "plain");
    assert_eq!(percent_decode("").unwrap(), "");
    assert_eq!(percent_decode("%41%62%2b").unwrap(), "Ab+");
    assert_eq!(percent_decode("\u{20ac}%e2%82%AC").unwrap(), "\u{20ac}\u{20ac}");
    assert_eq!(percent_decode("%25%34%31").unwrap(), "%41");
}

#[test]
fn percent_decoding_errors() {
    let cases = [
        ("ab%", "truncated percent-escape at position 2"),
        ("%4", "truncated percent-escape at position 0"),
        ("%41%4", "truncated percent-escape at position 3"),
        ("%zz", "invalid hex 'zz' at position 0"),
        ("x%-1", "invalid hex '-1' at position 1"),
        ("%+a", "invalid hex '+a' at position 0"),
        ("ab%+5", "invalid hex '+5' at position 2"),
        ("%4g", "invalid hex '4g' at position 0"),
        ("%\u{fc}", "invalid hex '\u{fc}' at position 0"),
        ("%4\u{fc}", "non-UTF8 percent-escape at position 0"),
        ("%ff", "decoded host is not valid UTF-8"),
    ];
    for (text, words) in cases {
        assert_eq!(percent_decode(text).unwrap_err(), words);
    }
}

#[test]
fn percent_encoded_hosts_come_back() {
    for host in ["example.com", "[2001:db8::1]", "100%", "a/b?c#d", "\u{4f8b}\u{3048}.jp"] {
        let escaped: String = host.bytes().map(|b| format!("%{b:02X}")).collect();
        let path = format!("/.well-known/masque/udp/{escaped}/4433/");
        assert_eq!(parse_masque_udp_path(&path).unwrap(), (host.to_string(), 4433));
    }
}

#[test]
fn request_checks_come_in_order() {
    let path = "/.well-known/masque/udp/h/1/";
    assert_eq!(
        check_connect_udp("CONNECT", "connect-udp", path).unwrap(),
        ("h".to_string(), 1)
    );
    let words = |r: Result<(String, u16), SessionError>| r.unwrap_err().to_string();
    assert_eq!(
        words(check_connect_udp("connect", "x", "y")),
        "invalid CONNECT-UDP handshake: :method must be CONNECT"
    );
    assert_eq!(
        words(check_connect_udp("CONNECT", "CONNECT-UDP", "y")),
        "invalid CONNECT-UDP handshake: :protocol must be 'connect-udp'"
    );
    assert_eq!(
        words(check_connect_udp("CONNECT", "connect-udp", "y")),
        "path parse error: path 'y' does not start with '/.well-known/masque/udp/'"
    );
}

#[test]
fn protocol_field_that_is_not_ascii_counts_as_missing() {
    let mut req = connect_udp_request("/.well-known/masque/udp/h/1/");
    let value = HeaderValue::from_bytes(b"connect-udp\xff").unwrap();
    req.headers_mut().insert("x-protocol", value);
    assert!(matches!(
        parse_connect_udp_target(&req),
        Err(SessionError::InvalidHandshake { reason: ":protocol must be 'connect-udp'" })
    ));
}

#[test]
fn first_protocol_field_counts() {
    let mut req = connect_udp_request("/.well-known/masque/udp/h/1/");
    req.headers_mut().append("x-protocol", HeaderValue::from_static("websocket"));
    assert!(parse_connect_udp_target(&req).is_ok());
}

#[test]
fn protocol_extension_becomes_the_field() {
    let mut req = Request::builder()
        .method("CONNECT")
        .uri("/.well-known/masque/udp/h/1/")
        .header("x-protocol", "websocket")
        .header("other", "kept")
        .header("other", "kept too")
        .header("x-protocol", "webtransport")
        .body(())
        .unwrap();
    assert!(parse_connect_udp_target(&req).is_err());
    req.extensions_mut().insert(h3::ext::Protocol::CONNECT_UDP);
    let req = inject_protocol_header(req).unwrap();
    assert_eq!(req.headers().get("x-protocol").unwrap(), "connect-udp");
    assert_eq!(req.headers().get_all("x-protocol").iter().count(), 1);
    let others: Vec<&HeaderValue> = req.headers().get_all("other").iter().collect();
    assert_eq!(others, vec!["kept", "kept too"]);
    assert_eq!(parse_connect_udp_target(&req).unwrap(), ("h".to_string(), 1));
}

#[test]
fn another_protocol_extension_is_refused() {
    let mut req = connect_udp_request("/.well-known/masque/udp/h/1/");
    req.extensions_mut().insert(h3::ext::Protocol::WEB_TRANSPORT);
    let req = inject_protocol_header(req).unwrap();
    assert_eq!(req.headers().get("x-protocol").unwrap(), "webtransport");
    assert!(parse_connect_udp_target(&req).is_err());
}

#[test]
fn request_without_protocol_extension_stays() {
    let req = inject_protocol_header(connect_udp_request("/p")).unwrap();
    assert_eq!(req.headers().len(), 1);
    assert_eq!(req.headers().get("x-protocol").unwrap(), "connect-udp");
}

#[test]
fn injection_takes_as_many_fields_as_it_says() {
    let mut req = Request::builder().method("CONNECT").uri("/p").body(()).unwrap();
    for i in 0..MAX_FIELD_NAMES {
        let name = http::HeaderName::from_bytes(format!("f{i}").as_bytes()).unwrap();
        req.headers_mut().insert(name, HeaderValue::from_static("v"));
    }
    req.extensions_mut().insert(h3::ext::Protocol::CONNECT_UDP);
    let req = inject_protocol_header(req).unwrap();
    assert_eq!(req.headers().keys_len(), MAX_FIELD_NAMES + 1);
}

#[test]
fn injection_into_a_full_map_gives_nothing() {
    let mut req = Request::builder().method("CONNECT").uri("/p").body(()).unwrap();
    let mut i: usize = 0;
    loop {
        let name = http::HeaderName::from_bytes(format!("f{i}").as_bytes()).unwrap();
        if req.headers_mut().try_insert(name, HeaderValue::from_static("v")).is_err() {
            break;
        }
        i += 1;
    }
    req.extensions_mut().insert(h3::ext::Protocol::CONNECT_UDP);
    assert!(inject_protocol_header(req).is_none());
}

#[test]
fn session_error_words() {
    let io = std::io::Error::new(std::io::ErrorKind::Other, "socket gone");
    assert_eq!(SessionError::from(io).to_string(), "io error: socket gone");
    let protocol = masque_proxy::protocol::ProtocolError::DatagramTooShort;
    assert_eq!(
        SessionError::from(protocol).to_string(),
        "protocol error: http datagram too short to contain a context id"
    );
    assert_eq!(
        SessionError::ChannelClosed.to_string(),
        "session channel closed unexpectedly"
    );
    assert_eq!(
        SessionError::ParseError("bad".to_string()).to_string(),
        "path parse error: bad"
    );
    assert_eq!(
        SessionError::InvalidHandshake { reason: "no" }.to_string(),
        "invalid CONNECT-UDP handshake: no"
    );
}

// Setup

/// A setup for a tunnel to `example.com`, port 443.
fn setup() -> Setup<&'static str> {
    Setup::begin(&connect_udp_request("/.well-known/masque/udp/example.com/443/")).unwrap()
}

#[test]
fn setup_refuses_a_bad_request() {
    let refusal = Setup::<&'static str>::begin(&connect_udp_request("/x")).unwrap_err();
    assert!(matches!(refusal.error, SessionError::ParseError(_)));
    assert_eq!(refusal.answer.status().as_u16(), 400);
    assert!(refusal.answer.headers().is_empty());
}

#[test]
fn setup_runs_when_all_goes_well() {
    let mut setup = setup();
    assert_eq!(setup.target_host, "example.com");
    assert_eq!(setup.target_port, 443);
    assert_eq!(setup.lookup_name(), "example.com:443");
    assert!(setup.accepts(&SetupEvent::Resolved(None)));
    assert!(!setup.accepts(&SetupEvent::Bound(true)));
    assert!(matches!(setup.handle(SetupEvent::Resolved(Some("addr"))), SetupAction::Bind));
    assert!(setup.accepts(&SetupEvent::Bound(true)));
    assert!(matches!(setup.handle(SetupEvent::Bound(true)), SetupAction::Connect("addr")));
    assert!(setup.accepts(&SetupEvent::Connected(true)));
    match setup.handle(SetupEvent::Connected(true)) {
        SetupAction::Accept(answer) => {
            assert_eq!(answer.status().as_u16(), 200);
            assert_eq!(answer.headers().len(), 1);
            assert_eq!(answer.headers().get("capsule-protocol").unwrap(), "?1");
        }
        other => panic!("{other:?}"),
    }
    assert!(setup.accepts(&SetupEvent::Answered(true)));
    assert!(matches!(setup.handle(SetupEvent::Answered(true)), SetupAction::Run));
    assert!(!setup.accepts(&SetupEvent::Answered(true)));
    assert!(!setup.accepts(&SetupEvent::Resolved(None)));
}

/// The status of a refusal.
fn refused_with(action: SetupAction<&'static str>) -> u16 {
    match action {
        SetupAction::Refuse(answer) => {
            assert!(answer.headers().is_empty());
            answer.status().as_u16()
        }
        other => panic!("{other:?}"),
    }
}

#[test]
fn setup_failures_are_answered() {
    let mut s = setup();
    assert_eq!(refused_with(s.handle(SetupEvent::Resolved(None))), 502);
    assert!(!s.accepts(&SetupEvent::Resolved(None)));

    let mut s = setup();
    s.handle(SetupEvent::Resolved(Some("addr")));
    assert_eq!(refused_with(s.handle(SetupEvent::Bound(false))), 500);

    let mut s = setup();
    s.handle(SetupEvent::Resolved(Some("addr")));
    s.handle(SetupEvent::Bound(true));
    assert_eq!(refused_with(s.handle(SetupEvent::Connected(false))), 502);

    let mut s = setup();
    s.handle(SetupEvent::Resolved(Some("addr")));
    s.handle(SetupEvent::Bound(true));
    s.handle(SetupEvent::Connected(true));
    assert!(matches!(s.handle(SetupEvent::Answered(false)), SetupAction::Abandon));
    assert!(!s.accepts(&SetupEvent::Answered(true)));
}
