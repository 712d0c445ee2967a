//! Variable-length integers, capsules and HTTP datagrams.

use bytes::{Bytes, BytesMut};
use masque_proxy::protocol::{
    decode_capsule, decode_capsule_with_limit, decode_datagram_capsule_payload,
    decode_http_datagram, decode_varint, drain_capsules, encode_http_datagram, encode_varint,
    varint_prefix, varint_to_bytes, Capsule, CapsuleType, ContextIdSide, HttpDatagram,
    ProtocolError, VarInt, CONNECT_UDP_DEFAULT_CONTEXT_ID, DEFAULT_MAX_CAPSULE_PAYLOAD,
};

// Variable-length integers

#[test]
fn varint_roundtrip_1byte() {
    for v in [0u64, 1, 62, 63] {
        let mut buf = BytesMut::new();
        encode_varint(&mut buf, v);
        assert_eq!(buf.len(), 1, "value {v} should encode in 1 byte");
        let decoded = decode_varint(&mut buf).unwrap().unwrap();
        assert_eq!(decoded.value, v);
        assert_eq!(decoded.encoded_len, 1);
    }
}

#[test]
fn varint_roundtrip_2byte() {
    for v in [64u64, 255, 16_383] {
        let mut buf = BytesMut::new();
        encode_varint(&mut buf, v);
        assert_eq!(buf.len(), 2);
        let decoded = decode_varint(&mut buf).unwrap().unwrap();
        assert_eq!(decoded.value, v);
    }
}

#[test]
fn varint_roundtrip_4byte() {
    for v in [16_384u64, 1_000_000, 1_073_741_823] {
        let mut buf = BytesMut::new();
        encode_varint(&mut buf, v);
        assert_eq!(buf.len(), 4);
        let decoded = decode_varint(&mut buf).unwrap().unwrap();
        assert_eq!(decoded.value, v);
    }
}

#[test]
fn varint_roundtrip_8byte() {
    for v in [1_073_741_824u64, u32::MAX as u64, VarInt::MAX] {
        let mut buf = BytesMut::new();
        encode_varint(&mut buf, v);
        assert_eq!(buf.len(), 8);
        let decoded = decode_varint(&mut buf).unwrap().unwrap();
        assert_eq!(decoded.value, v);
    }
}

#[test]
fn varint_empty_returns_none() {
    let mut buf = BytesMut::new();
    let result = decode_varint(&mut buf).unwrap();
    assert_eq!(result, None);
}

#[test]
fn varint_partial_multibyte_returns_none() {
    let mut full = BytesMut::new();
    encode_varint(&mut full, 65536u64);
    assert_eq!(full.len(), 4);

    let mut partial = BytesMut::from(&full[..3]);
    let result = decode_varint(&mut partial).unwrap();
    assert_eq!(result, None, "should return None on partial multibyte");
    assert_eq!(partial.len(), 3, "partial buffer must be untouched");
}

#[test]
fn varint_wire_forms() {
    let cases: [(u64, &[u8]); 6] = [
        (37, b"\x25"),
        (15_293, b"\x7b\xbd"),
        (494_878_333, b"\x9d\x7f\x3e\x7d"),
        (151_288_809_941_952_652, b"\xc2\x19\x7c\x5e\xff\x14\xe8\x8c"),
        (64, b"\x40\x40"),
        (VarInt::MAX, b"\xff\xff\xff\xff\xff\xff\xff\xff"),
    ];
    for (value, wire) in cases {
        assert_eq!(varint_to_bytes(value).as_ref(), wire);
        let mut sink: Vec<u8> = vec![7];
        encode_varint(&mut sink, value);
        assert_eq!(sink[0], 7);
        assert_eq!(&sink[1..], wire);
        let mut src: &[u8] = wire;
        let decoded = decode_varint(&mut src).unwrap().unwrap();
        assert_eq!(decoded, VarInt { value, encoded_len: wire.len() });
        assert!(src.is_empty());
    }
}

#[test]
fn varint_longer_form_than_needed_is_read() {
    let mut src: &[u8] = b"\x40\x25";
    let decoded = decode_varint(&mut src).unwrap().unwrap();
    assert_eq!(decoded, VarInt { value: 37, encoded_len: 2 });
}

#[test]
fn varint_takes_only_its_own_bytes() {
    let mut src: Bytes = Bytes::from_static(b"\x7b\xbdrest");
    let decoded = decode_varint(&mut src).unwrap().unwrap();
    assert_eq!(decoded.value, 15_293);
    assert_eq!(src.as_ref(), b"rest");
}

#[test]
fn varint_half_packets_are_left_alone() {
    let wire = varint_to_bytes(1_073_741_824);
    for k in 0..wire.len() {
        let mut src: &[u8] = &wire[..k];
        assert_eq!(decode_varint(&mut src).unwrap(), None);
        assert_eq!(src.len(), k);
    }
}

#[test]
fn varint_construction() {
    assert_eq!(VarInt::MAX, 4_611_686_018_427_387_903);
    assert_eq!(VarInt::try_from_u64(VarInt::MAX).unwrap().encoded_len, 8);
    assert_eq!(VarInt::try_from_u64(VarInt::MAX + 1), Err(ProtocolError::VarIntOverflow));
    assert_eq!(VarInt::from_u64_unchecked(16_384), VarInt { value: 16_384, encoded_len: 4 });
    assert_eq!(VarInt::encoded_len_for(63), 1);
    assert_eq!(VarInt::encoded_len_for(64), 2);
    assert_eq!(VarInt::encoded_len_for(16_383), 2);
    assert_eq!(VarInt::encoded_len_for(16_384), 4);
    assert_eq!(VarInt::encoded_len_for(1_073_741_823), 4);
    assert_eq!(VarInt::encoded_len_for(1_073_741_824), 8);
}

#[test]
fn varint_prefixes() {
    assert_eq!(varint_prefix(0x25), (0, 1));
    assert_eq!(varint_prefix(0x7b), (1, 2));
    assert_eq!(varint_prefix(0x9d), (2, 4));
    assert_eq!(varint_prefix(0xc2), (3, 8));
}

// Capsules

fn make_datagram_capsule(payload_data: &[u8]) -> Capsule {
    Capsule {
        capsule_type: CapsuleType::Datagram,
        payload: Bytes::copy_from_slice(payload_data),
    }
}

#[test]
fn capsule_encode_decode_roundtrip() {
    let original = make_datagram_capsule(b"hello MASQUE world");
    let wire = original.to_bytes();

    let mut buf = BytesMut::from(wire.as_ref());
    let decoded = decode_capsule(&mut buf).unwrap().unwrap();

    assert_eq!(decoded.capsule_type, CapsuleType::Datagram);
    assert_eq!(decoded.payload, original.payload);
    assert_eq!(buf.len(), 0, "buffer must be fully consumed");
}

#[test]
fn capsule_empty_payload() {
    let c = Capsule {
        capsule_type: CapsuleType::Datagram,
        payload: Bytes::new(),
    };
    let wire = c.to_bytes();
    let mut buf = BytesMut::from(wire.as_ref());
    let decoded = decode_capsule(&mut buf).unwrap().unwrap();
    assert_eq!(decoded.payload.len(), 0);
    assert_eq!(buf.len(), 0);
}

#[test]
fn capsule_halfpacket_does_not_consume_buffer() {
    let original = make_datagram_capsule(b"fragmented payload data here");
    let wire = original.to_bytes();
    assert!(wire.len() >= 4, "wire should be at least a few bytes");

    let half = wire.len() / 2;
    let mut buf = BytesMut::from(&wire[..half]);

    let result = decode_capsule(&mut buf).unwrap();

    assert_eq!(result, None, "half-packet must return Ok(None)");
    assert_eq!(
        buf.len(),
        half,
        "cursor MUST NOT advance on incomplete frame"
    );
}

#[test]
fn capsule_byte_by_byte_assembly() {
    let original = make_datagram_capsule(b"incremental test");
    let wire = original.to_bytes();

    let mut buf = BytesMut::new();
    let mut decoded_capsule: Option<Capsule> = None;

    for (i, byte) in wire.iter().enumerate() {
        buf.extend_from_slice(&[*byte]);
        match decode_capsule(&mut buf).unwrap() {
            Some(c) => {
                decoded_capsule = Some(c);
                assert_eq!(buf.len(), 0, "consumed at byte {i}");
                break;
            }
            None => {
                assert_eq!(
                    buf.len(),
                    i + 1,
                    "cursor must not move before frame complete"
                );
            }
        }
    }

    let c = decoded_capsule.expect("should have decoded by end of stream");
    assert_eq!(c.payload, original.payload);
}

#[test]
fn capsule_exact_boundary_then_second_capsule() {
    let c1 = make_datagram_capsule(b"first");
    let c2 = make_datagram_capsule(b"second");

    let mut buf = BytesMut::new();
    buf.extend_from_slice(&c1.to_bytes());
    buf.extend_from_slice(&c2.to_bytes());

    let d1 = decode_capsule(&mut buf).unwrap().unwrap();
    let d2 = decode_capsule(&mut buf).unwrap().unwrap();
    let none = decode_capsule(&mut buf).unwrap();

    assert_eq!(d1.payload, c1.payload);
    assert_eq!(d2.payload, c2.payload);
    assert_eq!(none, None);
}

#[test]
fn capsule_unknown_type_is_returned_not_errored() {
    let unknown_type_id: u64 = 0xBEEF;
    let payload_data = b"opaque extension data";

    let mut wire = BytesMut::new();
    encode_varint(&mut wire, unknown_type_id);
    encode_varint(&mut wire, payload_data.len() as u64);
    wire.extend_from_slice(payload_data);

    let mut buf = wire.clone();
    let result = decode_capsule(&mut buf).unwrap();

    let capsule = result.expect("unknown capsule should decode as Ok(Some(_))");
    assert!(
        capsule.capsule_type.is_unknown(),
        "type should be CapsuleType::Unknown"
    );
    if let CapsuleType::Unknown(v) = capsule.capsule_type {
        assert_eq!(v, unknown_type_id);
    }
    assert_eq!(capsule.payload.as_ref(), payload_data);
    assert_eq!(buf.len(), 0, "buffer fully consumed");
}

#[test]
fn drain_capsules_with_unknown_and_known_mixed() {
    let known = make_datagram_capsule(b"known");
    let mut wire = BytesMut::new();

    encode_varint(&mut wire, 0xDEAD_u64);
    encode_varint(&mut wire, 3u64);
    wire.extend_from_slice(b"unk");

    wire.extend_from_slice(&known.to_bytes());

    let mut buf = wire;
    let capsules = drain_capsules(&mut buf).unwrap();

    assert_eq!(capsules.len(), 2);
    assert!(capsules[0].capsule_type.is_unknown());
    assert_eq!(capsules[1].capsule_type, CapsuleType::Datagram);
    assert_eq!(capsules[1].payload, known.payload);
}

#[test]
fn capsule_too_large_returns_error() {
    let mut wire = BytesMut::new();
    encode_varint(&mut wire, 0u64);
    encode_varint(&mut wire, 20 * 1024 * 1024u64);

    let mut buf = wire;
    let result = decode_capsule(&mut buf);
    assert!(
        matches!(result, Err(ProtocolError::CapsuleTooLarge { .. })),
        "should reject oversized capsule"
    );
}

#[test]
fn capsule_wire_form() {
    let c = Capsule {
        capsule_type: CapsuleType::Unknown(0xBEEF),
        payload: Bytes::from_static(b"abc"),
    };
    assert_eq!(c.to_bytes().as_ref(), b"\x80\x00\xbe\xef\x03abc");
    let mut buf = BytesMut::from(&b"before"[..]);
    make_datagram_capsule(b"xy").encode(&mut buf);
    assert_eq!(buf.as_ref(), b"before\x00\x02xy");
}

#[test]
fn capsule_limit_is_exact() {
    assert_eq!(DEFAULT_MAX_CAPSULE_PAYLOAD, 65535);
    let largest = make_datagram_capsule(&vec![9u8; 65535]);
    let mut buf = BytesMut::from(largest.to_bytes().as_ref());
    assert_eq!(decode_capsule(&mut buf).unwrap().unwrap().payload.len(), 65535);

    let over = make_datagram_capsule(&vec![9u8; 65536]).to_bytes();
    let mut buf = BytesMut::from(over.as_ref());
    assert_eq!(
        decode_capsule(&mut buf),
        Err(ProtocolError::CapsuleTooLarge { length: 65536, limit: 65535 })
    );
    assert_eq!(buf.as_ref(), over.as_ref());
    assert_eq!(
        decode_capsule_with_limit(&mut buf, 65536).unwrap().unwrap().payload.len(),
        65536
    );
    assert!(buf.is_empty());
}

#[test]
fn capsule_over_a_small_limit() {
    let mut buf = BytesMut::from(&b"\x00\x04"[..]);
    assert_eq!(
        decode_capsule_with_limit(&mut buf, 3),
        Err(ProtocolError::CapsuleTooLarge { length: 4, limit: 3 })
    );
    assert_eq!(decode_capsule_with_limit(&mut buf, 4), Ok(None));
}

#[test]
fn capsule_with_a_huge_length_and_limit_is_incomplete() {
    let mut buf = BytesMut::new();
    encode_varint(&mut buf, 0);
    encode_varint(&mut buf, VarInt::MAX);
    assert_eq!(decode_capsule_with_limit(&mut buf, u64::MAX), Ok(None));
    assert_eq!(buf.len(), 9);
}

#[test]
fn capsule_every_half_packet() {
    let wire = make_datagram_capsule(b"half a packet").to_bytes();
    for k in 0..wire.len() {
        let mut buf = BytesMut::from(&wire[..k]);
        assert_eq!(decode_capsule(&mut buf), Ok(None));
        assert_eq!(buf.as_ref(), &wire[..k]);
    }
}

#[test]
fn capsule_type_numbers() {
    let named = [
        (0x00, CapsuleType::Datagram),
        (0x03, CapsuleType::AddressAssign),
        (0x04, CapsuleType::AddressRequest),
        (0x05, CapsuleType::RouteAdvertisement),
    ];
    for (number, t) in named {
        assert_eq!(CapsuleType::from_u64(number), t);
        assert_eq!(t.to_u64(), number);
        assert!(!t.is_unknown());
    }
    for number in [0x01, 0x02, 0x06, u64::MAX] {
        assert_eq!(CapsuleType::from_u64(number), CapsuleType::Unknown(number));
        assert_eq!(CapsuleType::from_u64(number).to_u64(), number);
        assert!(CapsuleType::from_u64(number).is_unknown());
    }
}

#[test]
fn capsule_of_unknown_type_with_a_named_number_reads_back_named() {
    let c = Capsule {
        capsule_type: CapsuleType::Unknown(3),
        payload: Bytes::new(),
    };
    let mut buf = BytesMut::from(c.to_bytes().as_ref());
    let decoded = decode_capsule(&mut buf).unwrap().unwrap();
    assert_eq!(decoded.capsule_type, CapsuleType::AddressAssign);
}

#[test]
fn drain_stops_at_a_capsule_that_is_too_large() {
    let mut buf = BytesMut::new();
    buf.extend_from_slice(&make_datagram_capsule(b"ok").to_bytes());
    encode_varint(&mut buf, 0);
    encode_varint(&mut buf, 70_000);
    assert_eq!(
        drain_capsules(&mut buf),
        Err(ProtocolError::CapsuleTooLarge { length: 70_000, limit: 65535 })
    );
    assert_eq!(buf.len(), 5);
}

#[test]
fn drain_is_the_same_however_the_stream_is_cut() {
    let mut wire = BytesMut::new();
    for p in [&b"one"[..], b"", b"three"] {
        wire.extend_from_slice(&make_datagram_capsule(p).to_bytes());
    }
    wire.extend_from_slice(b"\x00\x09half");
    let mut whole = wire.clone();
    let expected = drain_capsules(&mut whole).unwrap();
    assert_eq!(expected.len(), 3);
    for k in 0..=wire.len() {
        let mut buf = BytesMut::from(&wire[..k]);
        let mut found = drain_capsules(&mut buf).unwrap();
        buf.extend_from_slice(&wire[k..]);
        found.extend(drain_capsules(&mut buf).unwrap());
        assert_eq!(found, expected);
        assert_eq!(buf, whole);
        assert_eq!(drain_capsules(&mut buf).unwrap(), vec![]);
    }
}

// HTTP datagrams

#[test]
fn http_datagram_encode_decode_roundtrip() {
    let context_id = CONNECT_UDP_DEFAULT_CONTEXT_ID;
    let udp_payload = Bytes::from_static(b"\x00\x50hello udp world");

    let encoded = encode_http_datagram(context_id, &udp_payload);
    let decoded = decode_http_datagram(encoded).unwrap();

    assert_eq!(decoded.context_id, context_id);
    assert_eq!(decoded.payload, udp_payload);
}

#[test]
fn http_datagram_non_zero_context_id() {
    let context_id = 42u64;
    let udp_payload = Bytes::from_static(b"payload for context 42");

    let encoded = encode_http_datagram(context_id, &udp_payload);
    let decoded = decode_http_datagram(encoded).unwrap();

    assert_eq!(decoded.context_id, 42);
    assert_eq!(ContextIdSide::of(decoded.context_id), ContextIdSide::Client);
    assert_eq!(decoded.payload, udp_payload);
}

#[test]
fn http_datagram_server_side_context_id_is_odd() {
    let context_id = 1u64;
    let payload = Bytes::from_static(b"server-allocated context");

    let encoded = encode_http_datagram(context_id, &payload);
    let decoded = decode_http_datagram(encoded).unwrap();

    assert_eq!(ContextIdSide::of(decoded.context_id), ContextIdSide::Server);
}

#[test]
fn http_datagram_too_short_returns_error() {
    let raw = Bytes::new();
    let result = decode_http_datagram(raw);
    assert_eq!(result.unwrap_err(), ProtocolError::DatagramTooShort);
}

#[test]
fn http_datagram_payload_is_zero_copy_subslice() {
    let udp_data = b"original data block for zero copy check";
    let context_id = 0u64;
    let original_payload = Bytes::copy_from_slice(udp_data);
    let encoded = encode_http_datagram(context_id, &original_payload);

    let encoded_ptr = encoded.as_ptr() as usize;
    let decoded = decode_http_datagram(encoded).unwrap();

    let payload_ptr = decoded.payload.as_ptr() as usize;
    let encoded_end = encoded_ptr + 1 + udp_data.len();
    assert!(
        payload_ptr >= encoded_ptr && payload_ptr < encoded_end,
        "payload should be a zero-copy subslice of the encoded buffer"
    );
    assert_eq!(decoded.payload.as_ref(), udp_data);
}

#[test]
fn datagram_capsule_carries_http_datagram() {
    let context_id = 0u64;
    let udp_payload = Bytes::from_static(b"UDP DNS query bytes here");
    let http_dgram_bytes = encode_http_datagram(context_id, &udp_payload);

    let capsule = Capsule {
        capsule_type: CapsuleType::Datagram,
        payload: http_dgram_bytes,
    };

    let wire = capsule.to_bytes();
    let mut buf = BytesMut::from(wire.as_ref());

    let decoded_capsule = decode_capsule(&mut buf).unwrap().unwrap();
    let decoded_dgram = decode_datagram_capsule_payload(&decoded_capsule).unwrap();

    assert_eq!(decoded_dgram.context_id, context_id);
    assert_eq!(decoded_dgram.payload, udp_payload);
}

#[test]
fn context_id_side_classification() {
    assert_eq!(ContextIdSide::of(0), ContextIdSide::Client);
    assert_eq!(ContextIdSide::of(2), ContextIdSide::Client);
    assert_eq!(ContextIdSide::of(100), ContextIdSide::Client);
    assert_eq!(ContextIdSide::of(1), ContextIdSide::Server);
    assert_eq!(ContextIdSide::of(99), ContextIdSide::Server);
}

#[test]
fn http_datagram_wire_form() {
    let encoded = encode_http_datagram(15_293, &Bytes::from_static(b"data"));
    assert_eq!(encoded.as_ref(), b"\x7b\xbddata");
    let decoded = decode_http_datagram(Bytes::from_static(b"\x05")).unwrap();
    assert_eq!(decoded, HttpDatagram { context_id: 5, payload: Bytes::new() });
}

#[test]
fn http_datagram_with_half_a_context_id_is_too_short() {
    let raw = Bytes::from_static(b"\x80\x00\x01");
    assert_eq!(decode_http_datagram(raw), Err(ProtocolError::DatagramTooShort));
}

#[test]
fn http_datagram_with_a_context_id_out_of_canonical_range_is_refused() {
    let cases: [&'static [u8]; 5] = [
        b"\x40\x01\x78",
        b"\x40\x3f",
        b"\x80\x00\x3f\xffdata",
        b"\xc0\x00\x00\x00\x3f\xff\xff\xff",
        b"\xc0\x00\x00\x00\x00\x00\x00\x00x",
    ];
    for raw in cases {
        assert_eq!(
            decode_http_datagram(Bytes::from_static(raw)),
            Err(ProtocolError::InvalidVarInt)
        );
        assert_eq!(
            decode_datagram_capsule_payload(&make_datagram_capsule(raw)),
            Err(ProtocolError::InvalidVarInt)
        );
    }
    let smallest = decode_http_datagram(Bytes::from_static(b"\x40\x40x")).unwrap();
    assert_eq!(smallest.context_id, 64);
}

#[test]
fn datagram_capsule_of_another_type_is_refused() {
    let cases = [
        (CapsuleType::AddressAssign, "expected DATAGRAM capsule, got AddressAssign"),
        (CapsuleType::AddressRequest, "expected DATAGRAM capsule, got AddressRequest"),
        (CapsuleType::RouteAdvertisement, "expected DATAGRAM capsule, got RouteAdvertisement"),
        (CapsuleType::Unknown(48879), "expected DATAGRAM capsule, got Unknown(48879)"),
    ];
    for (capsule_type, words) in cases {
        let c = Capsule { capsule_type, payload: Bytes::from_static(b"\x00") };
        assert_eq!(
            decode_datagram_capsule_payload(&c),
            Err(ProtocolError::Io(words.to_string()))
        );
    }
    assert_eq!(
        decode_datagram_capsule_payload(&make_datagram_capsule(b"")),
        Err(ProtocolError::DatagramTooShort)
    );
}

// Errors

#[test]
fn protocol_error_words() {
    let cases = [
        (
            ProtocolError::Incomplete { needed: 12 },
            "incomplete frame: need at least 12 more bytes",
        ),
        (ProtocolError::InvalidVarInt, "varint value out of canonical range"),
        (ProtocolError::VarIntOverflow, "varint overflow: encoded value exceeds u64::MAX"),
        (
            ProtocolError::CapsuleTooLarge { length: 65536, limit: 65535 },
            "capsule payload too large: 65536 bytes exceeds limit 65535",
        ),
        (
            ProtocolError::DatagramTooShort,
            "http datagram too short to contain a context id",
        ),
        (
            ProtocolError::ContextIdParityViolation { id: u64::MAX },
            "unexpected context id parity: id=18446744073709551615",
        ),
        (ProtocolError::Io("broken pipe".to_string()), "io error: broken pipe"),
    ];
    for (error, words) in cases {
        assert_eq!(error.to_string(), words);
    }
}
