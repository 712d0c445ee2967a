//! HTTP datagrams and their context ids: a context id as a variable-length integer,
//! then the payload.

use bytes::{Bytes, BytesMut};
use vstd::prelude::*;

use crate::buffers;
use crate::protocol::capsule;
use crate::protocol::capsule::{Capsule, CapsuleType};
use crate::protocol::error::{ProtocolError, ProtocolErrorView};
use crate::protocol::varint;
use crate::protocol::varint::{decode_varint, encode_varint, VarInt};
use crate::text;

verus! {

/// The context id of UDP payloads for the target of the request.
pub const CONNECT_UDP_DEFAULT_CONTEXT_ID: u64 = 0;

/// A decoded HTTP datagram.
#[derive(Debug, Clone, PartialEq)]
pub struct HttpDatagram {
    /// The context id.
    pub context_id: u64,
    /// The payload, a slice of the buffer that it was decoded from.
    pub payload: Bytes,
}

/// An `HttpDatagram` as a mathematical value.
pub struct HttpDatagramView {
    pub context_id: nat,
    pub payload: Seq<u8>,
}

impl View for HttpDatagram {
    type V = HttpDatagramView;

    open spec fn view(&self) -> HttpDatagramView {
        HttpDatagramView {
            context_id: self.context_id as nat,
            payload: buffers::bytes_seq(self.payload),
        }
    }
}

/// The side that allocates a context id.
#[derive(Debug, Clone, Copy, PartialEq, Eq, Structural)]
pub enum ContextIdSide {
    /// The client: even ids.
    Client,
    /// The server: odd ids.
    Server,
}

/// The side that allocates an id.
pub open spec fn side_of(context_id: nat) -> ContextIdSide {
    if context_id % 2 == 0 {
        ContextIdSide::Client
    } else {
        ContextIdSide::Server
    }
}

impl ContextIdSide {
    /// The side that allocates the given id.
    pub fn of(context_id: u64) -> (side: ContextIdSide)
        ensures
            side == side_of(context_id as nat),
    {
        if context_id % 2 == 0 {
            ContextIdSide::Client
        } else {
            ContextIdSide::Server
        }
    }
}

/// The wire form of an HTTP datagram.
pub open spec fn datagram_bytes(d: HttpDatagramView) -> Seq<u8> {
    varint::varint_bytes(d.context_id) + d.payload
}

/// The HTTP datagram that `s` is, or what is wrong with it: it is too short for a context
/// id, or the context id is written in a wider field than it needs.
pub open spec fn parse_datagram(s: Seq<u8>) -> Result<HttpDatagramView, ProtocolErrorView> {
    if !varint::has_varint(s) {
        Err(ProtocolErrorView::DatagramTooShort)
    } else if varint::field_width(s[0]) != varint::varint_len(varint::varint_value(s)) {
        Err(ProtocolErrorView::InvalidVarInt)
    } else {
        Ok(
            HttpDatagramView {
                context_id: varint::varint_value(s),
                payload: s.skip(varint::field_width(s[0]) as int),
            },
        )
    }
}

/// Reads an HTTP datagram. All that follows the context id is payload.
///
/// A buffer that cannot hold the context id is answered `DatagramTooShort`, and a context id
/// outside of the canonical range of its prefix `InvalidVarInt`.
pub fn decode_http_datagram(raw: Bytes) -> (r: Result<HttpDatagram, ProtocolError>)
    ensures
        match parse_datagram(buffers::bytes_seq(raw)) {
            Ok(d) => r is Ok && r->Ok_0@ == d,
            Err(e) => r is Err && r->Err_0@ == e,
        },
{
    let mut payload: Bytes = raw;
    match decode_varint(&mut payload) {
        Err(e) => Err(e),
        Ok(None) => Err(ProtocolError::DatagramTooShort),
        Ok(Some(vi)) => if vi.encoded_len != VarInt::encoded_len_for(vi.value) {
            Err(ProtocolError::InvalidVarInt)
        } else {
            Ok(HttpDatagram { context_id: vi.value, payload })
        },
    }
}

/// The wire form of an HTTP datagram with the given context id and payload.
pub fn encode_http_datagram(context_id: u64, payload: &Bytes) -> (b: Bytes)
    requires
        context_id <= VarInt::MAX,
        buffers::bytes_seq(*payload).len() + 8 <= isize::MAX,
    ensures
        buffers::bytes_seq(b) == datagram_bytes(
            HttpDatagramView {
                context_id: context_id as nat,
                payload: buffers::bytes_seq(*payload),
            },
        ),
{
    proof {
        varint::lemma_varint_bytes_shape(context_id as nat);
    }
    let mut buf: BytesMut = buffers::bytes_mut_with_capacity(8 + buffers::bytes_len(payload));
    encode_varint(&mut buf, context_id);
    assert(buffers::bytes_mut_seq(buf) =~= varint::varint_bytes(context_id as nat));
    buffers::bytes_mut_extend_from_slice(&mut buf, buffers::bytes_chunk(payload));
    buffers::bytes_mut_freeze(buf)
}

/// Reads the HTTP datagram that a DATAGRAM capsule carries. A capsule of another type
/// is refused with the name of its type.
pub fn decode_datagram_capsule_payload(capsule: &Capsule) -> (r: Result<
    HttpDatagram,
    ProtocolError,
>)
    ensures
        capsule.capsule_type != CapsuleType::Datagram ==> r is Err && r->Err_0@
            == ProtocolErrorView::Io(
            "expected DATAGRAM capsule, got "@ + capsule::capsule_type_text(capsule.capsule_type),
        ),
        capsule.capsule_type == CapsuleType::Datagram ==> match parse_datagram(capsule@.payload) {
            Ok(d) => r is Ok && r->Ok_0@ == d,
            Err(e) => r is Err && r->Err_0@ == e,
        },
{
    if capsule.capsule_type != CapsuleType::Datagram {
        return Err(
            ProtocolError::Io(
                text::concat2(
                    "expected DATAGRAM capsule, got ",
                    capsule.capsule_type.name().as_str(),
                ),
            ),
        );
    }
    decode_http_datagram(capsule.payload.clone())
}

/// A datagram is read back as it was written, whatever its payload.
pub proof fn law_datagram_round_trip(d: HttpDatagramView)
    requires
        d.context_id <= VarInt::MAX,
    ensures
        parse_datagram(datagram_bytes(d)) == Ok::<HttpDatagramView, ProtocolErrorView>(d),
{
    varint::law_varint_round_trip(d.context_id, d.payload);
}

/// A context id in a wider field than it needs is refused, whatever follows it.
pub proof fn law_datagram_canonical(s: Seq<u8>)
    requires
        varint::has_varint(s),
    ensures
        parse_datagram(s) is Ok <==> s.take(varint::field_width(s[0]) as int)
            == varint::varint_bytes(varint::varint_value(s)),
        parse_datagram(s) is Err ==> parse_datagram(s)->Err_0 is InvalidVarInt,
{
    varint::law_varint_canonical(s);
}

/// A datagram in a DATAGRAM capsule comes out of the stream as it went in, whatever
/// follows it.
pub proof fn law_datagram_capsule_round_trip(d: HttpDatagramView, rest: Seq<u8>, limit: nat)
    requires
        d.context_id <= VarInt::MAX,
        datagram_bytes(d).len() <= limit,
        datagram_bytes(d).len() <= VarInt::MAX,
    ensures
        ({
            let carrier = capsule::CapsuleView {
                capsule_type: CapsuleType::Datagram,
                payload: datagram_bytes(d),
            };
            &&& capsule::parse_capsule(capsule::capsule_bytes(carrier) + rest, limit) == (
            capsule::CapsuleParse::Complete {
                capsule: carrier,
                size: capsule::capsule_bytes(carrier).len(),
            })
            &&& parse_datagram(carrier.payload) == Ok::<HttpDatagramView, ProtocolErrorView>(d)
        }),
{
    let carrier = capsule::CapsuleView {
        capsule_type: CapsuleType::Datagram,
        payload: datagram_bytes(d),
    };
    law_datagram_round_trip(d);
    capsule::law_capsule_round_trip(carrier, rest, limit);
}

/// What is read is what stands there: the context id is the value of the field that the
/// datagram starts with, and the payload is all that follows that field. So a datagram whose
/// first byte is 0 is of context 0, however long it is.
pub proof fn law_datagram_is_what_stands_there(s: Seq<u8>)
    ensures
        parse_datagram(s) matches Ok(d) ==> {
            &&& varint::has_varint(s)
            &&& d.context_id == varint::varint_value(s)
            &&& d.payload == s.skip(varint::field_width(s[0]) as int)
        },
        s.len() > 0 && s[0] < 64 ==> (parse_datagram(s) matches Ok(d) && d.context_id == s[0]
            && d.payload == s.skip(1)),
        parse_datagram(s) matches Ok(d) && d.context_id == CONNECT_UDP_DEFAULT_CONTEXT_ID ==> s[0]
            == 0,
{
    varint::law_varint_fields(s);
}

/// A datagram is too short just when the field that it starts with is not there in whole, and
/// malformed just when that field is there and wider than its value needs; any other is read.
pub proof fn law_datagram_errors(s: Seq<u8>)
    ensures
        match parse_datagram(s) {
            Err(e) => e is DatagramTooShort || e is InvalidVarInt,
            Ok(_) => true,
        },
        parse_datagram(s) == Err::<HttpDatagramView, ProtocolErrorView>(
            ProtocolErrorView::DatagramTooShort,
        ) <==> !varint::has_varint(s),
        parse_datagram(s) == Err::<HttpDatagramView, ProtocolErrorView>(
            ProtocolErrorView::InvalidVarInt,
        ) <==> varint::has_varint(s) && (varint::field_width(s[0]) == 2 && varint::varint_value(s)
            < 64 || varint::field_width(s[0]) == 4 && varint::varint_value(s) < 16_384
            || varint::field_width(s[0]) == 8 && varint::varint_value(s) < 1_073_741_824),
{
    varint::law_varint_fields(s);
    if varint::has_varint(s) {
        varint::law_varint_range(s);
    }
}

/// What is written: the context id in the narrowest field, then the payload as it is. A payload
/// for the default context is written behind one byte 0, however long it is.
pub proof fn law_datagram_wire(d: HttpDatagramView)
    requires
        d.context_id < 0x4000_0000_0000_0000,
    ensures
        varint::has_varint(datagram_bytes(d)),
        varint::varint_value(datagram_bytes(d)) == d.context_id,
        varint::field_width(datagram_bytes(d)[0]) == varint::varint_len(d.context_id),
        datagram_bytes(d).skip(varint::varint_len(d.context_id) as int) == d.payload,
        d.context_id < 64 ==> datagram_bytes(d) == seq![d.context_id as u8] + d.payload,
        CONNECT_UDP_DEFAULT_CONTEXT_ID == 0,
{
    varint::law_varint_round_trip(d.context_id, d.payload);
    varint::law_varint_wire(d.context_id);
}

/// The view of a datagram is its context id and the bytes of its payload.
pub proof fn law_datagram_view(d: HttpDatagram)
    ensures
        d@.context_id == d.context_id,
        d@.payload == buffers::bytes_seq(d.payload),
{
}

/// The two sides allocate the ids in turn, beginning with the client: the ids of a side are
/// the doubles of numbers, or one more.
pub proof fn law_sides_take_turns(id: nat)
    ensures
        side_of(0) == ContextIdSide::Client,
        side_of(id) != side_of(id + 1),
        side_of(2 * id) == ContextIdSide::Client,
        side_of(2 * id + 1) == ContextIdSide::Server,
{
}

} // verus!
