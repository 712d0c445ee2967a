//! What a tunnel session does with what happens.

use bytes::{Bytes, BytesMut};
use masque_proxy::protocol::{
    decode_http_datagram, encode_http_datagram, encode_varint, Capsule, CapsuleType,
    ProtocolError, CONNECT_UDP_DEFAULT_CONTEXT_ID,
};
use masque_proxy::session::{Action, ConnectUdpSession, Event, QuicMessage, SessionError};

/// A session whose addresses are words.
fn new_session() -> ConnectUdpSession<&'static str> {
    ConnectUdpSession::new()
}

/// Hands an event to a session that can take it.
fn tell(
    session: &mut ConnectUdpSession<&'static str>,
    event: Event<&'static str>,
) -> Action<&'static str> {
    assert!(session.accepts(&event));
    session.handle(event)
}

/// A QUIC DATAGRAM frame comes in.
fn datagram(session: &mut ConnectUdpSession<&'static str>, raw: Bytes) -> Action<&'static str> {
    tell(session, Event::Message(QuicMessage::Datagram(raw)))
}

/// Stream bytes come in.
fn chunk(session: &mut ConnectUdpSession<&'static str>, bytes: Bytes) -> Action<&'static str> {
    tell(session, Event::Message(QuicMessage::StreamChunk(bytes)))
}

/// The target and payload of a UDP send.
fn sent(action: Action<&'static str>) -> (Option<&'static str>, Bytes) {
    match action {
        Action::SendUdp { target, payload } => (target, payload),
        other => panic!("{other:?}"),
    }
}

/// The datagram that is handed to the HTTP/3 side.
fn upstream(action: Action<&'static str>) -> Bytes {
    match action {
        Action::SendDatagram(encoded) => encoded,
        other => panic!("{other:?}"),
    }
}

/// The words of an error that is reported.
fn reported(action: Action<&'static str>) -> String {
    match action {
        Action::Report(e) => e.to_string(),
        other => panic!("{other:?}"),
    }
}

/// The words of the error with which a capsule is skipped.
fn skipped(action: Action<&'static str>) -> String {
    match action {
        Action::Skip(e) => e.to_string(),
        other => panic!("{other:?}"),
    }
}

/// A DATAGRAM capsule with a datagram of the given context.
fn capsule(context_id: u64, payload: &[u8]) -> Bytes {
    Capsule {
        capsule_type: CapsuleType::Datagram,
        payload: encode_http_datagram(context_id, &Bytes::copy_from_slice(payload)),
    }
    .to_bytes()
}

fn io_error(words: &'static str) -> std::io::Error {
    std::io::Error::new(std::io::ErrorKind::Other, words)
}

#[test]
fn test_datagram_downstream_h3_to_udp() {
    let mut session = new_session();
    let udp_payload = Bytes::from_static(b"\x00\x01\x00\x00dns query bytes");
    let encoded = encode_http_datagram(CONNECT_UDP_DEFAULT_CONTEXT_ID, &udp_payload);
    let (target, payload) = sent(datagram(&mut session, encoded));
    assert_eq!(target, None);
    assert_eq!(payload.as_ref(), udp_payload.as_ref());
    assert!(matches!(tell(&mut session, Event::UdpSent), Action::Wait));
}

#[test]
fn test_datagram_upstream_udp_to_h3() {
    let mut session = new_session();
    let upstream_data = b"upstream DNS response";
    let encoded = upstream(tell(
        &mut session,
        Event::UdpReceived { peer: "target", payload: Bytes::from_static(upstream_data) },
    ));
    let dgram = decode_http_datagram(encoded).unwrap();
    assert_eq!(dgram.context_id, CONNECT_UDP_DEFAULT_CONTEXT_ID);
    assert_eq!(dgram.payload.as_ref(), upstream_data);
    assert!(matches!(tell(&mut session, Event::DatagramSent), Action::Wait));
}

#[test]
fn test_full_roundtrip() {
    let mut session = new_session();
    let query = Bytes::from_static(b"ping payload");
    let encoded_down = encode_http_datagram(CONNECT_UDP_DEFAULT_CONTEXT_ID, &query);
    let (_, payload) = sent(datagram(&mut session, encoded_down));
    assert_eq!(payload.as_ref(), b"ping payload");
    tell(&mut session, Event::UdpSent);

    let response = b"pong response";
    let encoded_up = upstream(tell(
        &mut session,
        Event::UdpReceived { peer: "target", payload: Bytes::from_static(response) },
    ));
    let dgram = decode_http_datagram(encoded_up).unwrap();
    assert_eq!(dgram.context_id, CONNECT_UDP_DEFAULT_CONTEXT_ID);
    assert_eq!(dgram.payload.as_ref(), response);
}

#[test]
fn test_capsule_stream_halfpacket_assembly() {
    let mut session = new_session();
    let udp_payload = Bytes::from_static(b"capsule stream payload");
    let http_dgram = encode_http_datagram(CONNECT_UDP_DEFAULT_CONTEXT_ID, &udp_payload);
    let capsule = Capsule {
        capsule_type: CapsuleType::Datagram,
        payload: http_dgram,
    };
    let wire = capsule.to_bytes();
    let split = wire.len() / 3;
    let part1 = wire.slice(..split);
    let part2 = wire.slice(split..);

    assert!(
        matches!(chunk(&mut session, part1), Action::Wait),
        "target should not receive anything from a partial capsule"
    );
    let (_, payload) = sent(chunk(&mut session, part2));
    assert_eq!(payload.as_ref(), udp_payload.as_ref());
    assert!(matches!(tell(&mut session, Event::UdpSent), Action::Wait));
}

#[test]
fn test_capsule_multiple_in_one_chunk() {
    let mut session = new_session();
    let payloads: &[&[u8]] = &[b"first packet", b"second packet", b"third packet"];
    let mut combined = BytesMut::new();
    for p in payloads {
        let http_dgram =
            encode_http_datagram(CONNECT_UDP_DEFAULT_CONTEXT_ID, &Bytes::copy_from_slice(p));
        let cap = Capsule {
            capsule_type: CapsuleType::Datagram,
            payload: http_dgram,
        };
        combined.extend_from_slice(&cap.to_bytes());
    }

    let mut action = chunk(&mut session, combined.freeze());
    for expected in payloads {
        let (_, payload) = sent(action);
        assert_eq!(payload.as_ref(), *expected);
        action = tell(&mut session, Event::UdpSent);
    }
    assert!(matches!(action, Action::Wait));
}

#[test]
fn test_unknown_capsule_skipped_then_known_forwarded() {
    let mut session = new_session();
    let mut wire = BytesMut::new();
    encode_varint(&mut wire, 0xBEEF_u64);
    encode_varint(&mut wire, 5u64);
    wire.extend_from_slice(b"junkx");

    let udp_payload = Bytes::from_static(b"real payload after unknown");
    let http_dgram = encode_http_datagram(CONNECT_UDP_DEFAULT_CONTEXT_ID, &udp_payload);
    let cap = Capsule {
        capsule_type: CapsuleType::Datagram,
        payload: http_dgram,
    };
    wire.extend_from_slice(&cap.to_bytes());

    let (_, payload) = sent(chunk(&mut session, wire.freeze()));
    assert_eq!(payload.as_ref(), udp_payload.as_ref());
}

#[test]
fn test_non_zero_context_id_datagram_ignored() {
    let mut session = new_session();
    let ignored_payload = Bytes::from_static(b"should be dropped");
    let encoded_ignored = encode_http_datagram(42, &ignored_payload);
    let real_payload = Bytes::from_static(b"should arrive");
    let encoded_real = encode_http_datagram(CONNECT_UDP_DEFAULT_CONTEXT_ID, &real_payload);

    assert!(matches!(datagram(&mut session, encoded_ignored), Action::Wait));
    let (_, payload) = sent(datagram(&mut session, encoded_real));
    assert_eq!(payload.as_ref(), b"should arrive");
}

#[test]
fn test_session_closes_on_quic_closed_message() {
    let mut session = new_session();
    let action = tell(&mut session, Event::Message(QuicMessage::Closed));
    let result = match action {
        Action::Finish(result) => result,
        other => panic!("{other:?}"),
    };
    assert!(
        result.is_ok(),
        "clean close should not return an error: {result:?}"
    );
    assert!(!session.accepts(&Event::MessagesEnded));
}

#[test]
fn test_session_closes_when_channel_dropped() {
    let mut session = new_session();
    let result = match tell(&mut session, Event::MessagesEnded) {
        Action::Finish(result) => result,
        other => panic!("{other:?}"),
    };
    assert!(result.is_ok());
}

#[test]
fn session_receive_buffer_size() {
    assert_eq!(new_session().udp_recv_buf_size(), 65535);
    assert_eq!(new_session().with_udp_recv_buf_size(1500).udp_recv_buf_size(), 1500);
}

#[test]
fn session_learns_the_first_peer_only() {
    let mut session = new_session();
    for peer in ["first", "second"] {
        tell(&mut session, Event::UdpReceived { peer, payload: Bytes::new() });
        tell(&mut session, Event::DatagramSent);
    }
    let raw = encode_http_datagram(0, &Bytes::from_static(b"x"));
    assert_eq!(sent(datagram(&mut session, raw)).0, Some("first"));
    tell(&mut session, Event::UdpSent);
    assert_eq!(sent(chunk(&mut session, capsule(0, b"y"))).0, Some("first"));
}

#[test]
fn session_upstream_wire_form() {
    let mut session = new_session();
    let event = Event::UdpReceived { peer: "t", payload: Bytes::from_static(b"abc") };
    assert_eq!(upstream(tell(&mut session, event)).as_ref(), b"\x00abc");
}

#[test]
fn session_goes_on_after_a_bad_datagram() {
    let mut session = new_session();
    assert_eq!(
        reported(datagram(&mut session, Bytes::new())),
        "protocol error: http datagram too short to contain a context id"
    );
    assert_eq!(
        reported(datagram(&mut session, Bytes::from_static(b"\x40\x00x"))),
        "protocol error: varint value out of canonical range"
    );
    let raw = encode_http_datagram(0, &Bytes::from_static(b"x"));
    sent(datagram(&mut session, raw));
    assert_eq!(
        reported(tell(&mut session, Event::UdpSendFailed(io_error("refused")))),
        "io error: refused"
    );
    assert!(session.accepts(&Event::MessagesEnded));
}

#[test]
fn session_goes_on_with_the_stream_after_a_bad_capsule() {
    let mut session = new_session();
    let mut wire = BytesMut::from(capsule(0, b"one").as_ref());
    wire.extend_from_slice(b"\x00\x00");
    wire.extend_from_slice(b"\x00\x03\x40\x01x");
    wire.extend_from_slice(&capsule(0, b"two"));
    assert_eq!(sent(chunk(&mut session, wire.freeze())).1.as_ref(), b"one");
    assert_eq!(
        skipped(tell(&mut session, Event::UdpSent)),
        "protocol error: http datagram too short to contain a context id"
    );
    assert!(!session.accepts(&Event::UdpSent));
    assert!(!session.accepts(&Event::MessagesEnded));
    assert_eq!(
        skipped(tell(&mut session, Event::Skipped)),
        "protocol error: varint value out of canonical range"
    );
    assert_eq!(sent(tell(&mut session, Event::Skipped)).1.as_ref(), b"two");
    assert!(matches!(tell(&mut session, Event::UdpSent), Action::Wait));
}

#[test]
fn session_takes_up_the_stream_after_a_failed_send() {
    let mut session = new_session();
    let mut wire = BytesMut::from(capsule(0, b"one").as_ref());
    wire.extend_from_slice(&capsule(0, b"two"));
    sent(chunk(&mut session, wire.freeze()));
    reported(tell(&mut session, Event::UdpSendFailed(io_error("full"))));
    assert_eq!(sent(chunk(&mut session, capsule(0, b"three"))).1.as_ref(), b"two");
    assert_eq!(sent(tell(&mut session, Event::UdpSent)).1.as_ref(), b"three");
}

#[test]
fn session_skips_capsules_of_other_contexts_and_types() {
    let mut session = new_session();
    let mut wire = BytesMut::from(capsule(2, b"skipped").as_ref());
    for t in [CapsuleType::AddressAssign, CapsuleType::RouteAdvertisement] {
        let c = Capsule { capsule_type: t, payload: Bytes::from_static(b"\x00odd") };
        c.encode(&mut wire);
    }
    wire.extend_from_slice(&capsule(0, b"kept"));
    assert_eq!(sent(chunk(&mut session, wire.freeze())).1.as_ref(), b"kept");
}

/// The words for a capsule of 65536 bytes.
const TOO_LARGE: &str =
    "protocol error: capsule payload too large: 65536 bytes exceeds limit 65535";

/// A capsule that is just too large, with its payload.
fn too_large() -> BytesMut {
    let mut wire = BytesMut::from(&b"\x00\x80\x01\x00\x00"[..]);
    wire.extend_from_slice(&vec![0u8; 65536]);
    wire
}

#[test]
fn session_skips_a_capsule_that_is_too_large() {
    let mut session = new_session();
    assert_eq!(skipped(chunk(&mut session, too_large().freeze())), TOO_LARGE);
    assert!(matches!(tell(&mut session, Event::Skipped), Action::Wait));
    let good = Bytes::from_static(b"\x00\x02\x00\x78");
    assert_eq!(sent(chunk(&mut session, good)).1.as_ref(), b"x");
    assert!(matches!(tell(&mut session, Event::UdpSent), Action::Wait));
    let closed = tell(&mut session, Event::Message(QuicMessage::Closed));
    assert!(matches!(closed, Action::Finish(Ok(()))));
}

#[test]
fn session_skips_a_capsule_that_is_too_large_however_it_is_cut() {
    let mut wire = BytesMut::from(capsule(0, b"before").as_ref());
    wire.extend_from_slice(&too_large());
    wire.extend_from_slice(&capsule(0, b"behind"));
    let wire = wire.freeze();
    for size in [1, 2, 3, 9, 12, 13, 17, 1000, 65549, 65550, wire.len()] {
        let mut session = new_session();
        let mut payloads: Vec<Bytes> = vec![];
        let mut errors: Vec<String> = vec![];
        let mut at = 0;
        while at < wire.len() {
            let end = (at + size).min(wire.len());
            let mut action = chunk(&mut session, wire.slice(at..end));
            loop {
                action = match action {
                    Action::SendUdp { payload, .. } => {
                        payloads.push(payload);
                        tell(&mut session, Event::UdpSent)
                    }
                    Action::Skip(e) => {
                        errors.push(e.to_string());
                        tell(&mut session, Event::Skipped)
                    }
                    Action::Wait => break,
                    other => panic!("{other:?}"),
                };
            }
            at = end;
        }
        assert_eq!(payloads, vec![&b"before"[..], b"behind"]);
        assert_eq!(errors, vec![TOO_LARGE]);
    }
}

#[test]
fn session_forwards_datagrams_beside_a_capsule_that_is_too_large() {
    let mut session = new_session();
    let part = too_large().freeze().slice(..100);
    assert_eq!(skipped(chunk(&mut session, part)), TOO_LARGE);
    assert!(matches!(tell(&mut session, Event::Skipped), Action::Wait));
    let raw = encode_http_datagram(0, &Bytes::from_static(b"beside"));
    assert_eq!(sent(datagram(&mut session, raw)).1.as_ref(), b"beside");
}

#[test]
fn session_forwards_the_same_however_the_stream_is_cut() {
    let mut wire = BytesMut::new();
    for (context_id, p) in [(0, &b"one"[..]), (4, b"no"), (0, b""), (0, b"three")] {
        wire.extend_from_slice(&capsule(context_id, p));
    }
    let wire = wire.freeze();
    for size in 1..=wire.len() {
        let mut session = new_session();
        let mut found: Vec<Bytes> = vec![];
        let mut at = 0;
        while at < wire.len() {
            let end = (at + size).min(wire.len());
            let mut action = chunk(&mut session, wire.slice(at..end));
            while let Action::SendUdp { payload, .. } = action {
                found.push(payload);
                action = tell(&mut session, Event::UdpSent);
            }
            assert!(matches!(action, Action::Wait));
            at = end;
        }
        assert_eq!(found, vec![&b"one"[..], b"", b"three"]);
    }
}

#[test]
fn session_ends_when_receiving_fails() {
    let mut session = new_session();
    match tell(&mut session, Event::UdpReceiveFailed(io_error("down"))) {
        Action::Finish(Err(SessionError::IoError(e))) => assert_eq!(e.to_string(), "down"),
        other => panic!("{other:?}"),
    }
    assert!(!session.accepts(&Event::UdpSent));
    assert!(!session.accepts(&Event::Message(QuicMessage::Closed)));
}

#[test]
fn session_ends_when_the_http3_side_is_gone() {
    let mut session = new_session();
    tell(&mut session, Event::UdpReceived { peer: "t", payload: Bytes::new() });
    assert!(!session.accepts(&Event::MessagesEnded));
    assert!(!session.accepts(&Event::UdpSent));
    assert!(matches!(
        tell(&mut session, Event::DatagramRefused),
        Action::Finish(Err(SessionError::ChannelClosed))
    ));
}

#[test]
fn session_waits_for_the_outcome_of_a_send() {
    let mut session = new_session();
    sent(chunk(&mut session, capsule(0, b"x")));
    assert!(!session.accepts(&Event::Message(QuicMessage::Closed)));
    assert!(!session.accepts(&Event::DatagramSent));
    assert!(session.accepts(&Event::UdpSendFailed(io_error("x"))));
    assert!(session.accepts(&Event::UdpSent));
}

#[test]
fn payload_goes_through_two_sessions() {
    let mut near = new_session();
    let mut far = new_session();
    let payload = Bytes::from_static(b"through both");
    let event = Event::UdpReceived { peer: "t", payload: payload.clone() };
    let encoded = upstream(tell(&mut near, event));
    assert_eq!(sent(datagram(&mut far, encoded)).1, payload);
}

#[test]
fn protocol_errors_become_session_errors() {
    assert!(matches!(
        SessionError::from(ProtocolError::InvalidVarInt),
        SessionError::ProtocolError(ProtocolError::InvalidVarInt)
    ));
}
