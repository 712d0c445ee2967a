//! The data plane: variable-length integers, capsules and HTTP datagrams.

pub mod capsule;
pub mod datagram;
pub mod error;
pub mod varint;

pub use crate::protocol::capsule::{
    decode_capsule, decode_capsule_with_limit, drain_capsules, Capsule, CapsuleType,
    DEFAULT_MAX_CAPSULE_PAYLOAD,
};
pub use crate::protocol::datagram::{
    decode_datagram_capsule_payload, decode_http_datagram, encode_http_datagram, ContextIdSide,
    HttpDatagram, CONNECT_UDP_DEFAULT_CONTEXT_ID,
};
pub use crate::protocol::error::ProtocolError;
pub use crate::protocol::varint::{
    decode_varint, encode_varint, varint_prefix, varint_to_bytes, VarInt,
};
