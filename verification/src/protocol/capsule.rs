//! The capsule protocol: a stream of frames, each with a type, a length and that many
//! bytes of payload.

use bytes::{Bytes, BytesMut};
use vstd::prelude::*;
use vstd::string::*;

use crate::buffers;
use crate::buffers::ByteSource;
use crate::protocol::error::{ProtocolError, ProtocolErrorView};
use crate::protocol::varint;
use crate::protocol::varint::{decode_varint, encode_varint, VarInt};
use crate::text;

verus! {

/// The largest payload that `decode_capsule` accepts: no UDP payload is larger.
pub const DEFAULT_MAX_CAPSULE_PAYLOAD: u64 = 65535;

/// What a capsule carries.
#[derive(Debug, Clone, Copy, PartialEq, Eq, Hash, Structural)]
pub enum CapsuleType {
    /// DATAGRAM, type 0x00: one HTTP datagram.
    Datagram,
    /// ADDRESS_ASSIGN, type 0x03.
    AddressAssign,
    /// ADDRESS_REQUEST, type 0x04.
    AddressRequest,
    /// ROUTE_ADVERTISEMENT, type 0x05.
    RouteAdvertisement,
    /// Any other type.
    Unknown(u64),
}

/// The type that a number on the wire stands for.
pub open spec fn capsule_type_of(v: nat) -> CapsuleType {
    if v == 0x00 {
        CapsuleType::Datagram
    } else if v == 0x03 {
        CapsuleType::AddressAssign
    } else if v == 0x04 {
        CapsuleType::AddressRequest
    } else if v == 0x05 {
        CapsuleType::RouteAdvertisement
    } else {
        CapsuleType::Unknown(v as u64)
    }
}

/// The number on the wire that stands for a type.
pub open spec fn capsule_type_value(t: CapsuleType) -> nat {
    match t {
        CapsuleType::Datagram => 0x00,
        CapsuleType::AddressAssign => 0x03,
        CapsuleType::AddressRequest => 0x04,
        CapsuleType::RouteAdvertisement => 0x05,
        CapsuleType::Unknown(v) => v as nat,
    }
}

/// The name of a type, as a diagnostic shows it.
pub open spec fn capsule_type_text(t: CapsuleType) -> Seq<char> {
    match t {
        CapsuleType::Datagram => "Datagram"@,
        CapsuleType::AddressAssign => "AddressAssign"@,
        CapsuleType::AddressRequest => "AddressRequest"@,
        CapsuleType::RouteAdvertisement => "RouteAdvertisement"@,
        CapsuleType::Unknown(v) => "Unknown("@ + text::decimal_text(v as nat) + ")"@,
    }
}

impl CapsuleType {
    /// The type that a number on the wire stands for.
    pub fn from_u64(v: u64) -> (t: CapsuleType)
        ensures
            t == capsule_type_of(v as nat),
    {
        match v {
            0x00 => CapsuleType::Datagram,
            0x03 => CapsuleType::AddressAssign,
            0x04 => CapsuleType::AddressRequest,
            0x05 => CapsuleType::RouteAdvertisement,
            other => CapsuleType::Unknown(other),
        }
    }

    /// The number on the wire that stands for this type.
    pub fn to_u64(self) -> (v: u64)
        ensures
            v == capsule_type_value(self),
    {
        match self {
            CapsuleType::Datagram => 0x00,
            CapsuleType::AddressAssign => 0x03,
            CapsuleType::AddressRequest => 0x04,
            CapsuleType::RouteAdvertisement => 0x05,
            CapsuleType::Unknown(v) => v,
        }
    }

    /// Whether this is none of the types with a name.
    pub fn is_unknown(&self) -> (r: bool)
        ensures
            r == (*self is Unknown),
    {
        match self {
            CapsuleType::Unknown(_) => true,
            _ => false,
        }
    }

    /// The name of this type, as a diagnostic shows it.
    pub(crate) fn name(&self) -> (s: String)
        ensures
            s@ == capsule_type_text(*self),
    {
        match self {
            CapsuleType::Datagram => "Datagram".to_owned(),
            CapsuleType::AddressAssign => "AddressAssign".to_owned(),
            CapsuleType::AddressRequest => "AddressRequest".to_owned(),
            CapsuleType::RouteAdvertisement => "RouteAdvertisement".to_owned(),
            CapsuleType::Unknown(v) => text::concat3(
                "Unknown(",
                text::decimal(*v).as_str(),
                ")",
            ),
        }
    }
}

/// One frame of the capsule protocol.
#[derive(Debug, Clone, PartialEq)]
pub struct Capsule {
    /// What the capsule carries.
    pub capsule_type: CapsuleType,
    /// The payload, a slice of the buffer that it was decoded from.
    pub payload: Bytes,
}

/// A `Capsule` as a mathematical value.
pub struct CapsuleView {
    pub capsule_type: CapsuleType,
    pub payload: Seq<u8>,
}

impl View for Capsule {
    type V = CapsuleView;

    open spec fn view(&self) -> CapsuleView {
        CapsuleView {
            capsule_type: self.capsule_type,
            payload: buffers::bytes_seq(self.payload),
        }
    }
}

/// The wire form of a capsule.
pub open spec fn capsule_bytes(c: CapsuleView) -> Seq<u8> {
    varint::varint_bytes(capsule_type_value(c.capsule_type)) + varint::varint_bytes(c.payload.len())
        + c.payload
}

/// Whether a capsule has a wire form: its type and its length fit their fields.
pub open spec fn encodable(c: CapsuleView) -> bool {
    &&& capsule_type_value(c.capsule_type) <= VarInt::MAX
    &&& c.payload.len() <= VarInt::MAX
}

/// What a buffer of stream bytes starts with.
pub enum CapsuleParse {
    /// A frame that is not there in whole yet.
    Incomplete,
    /// A frame whose length is over the limit, after a header of `header` bytes.
    TooLarge { length: nat, header: nat },
    /// A whole frame of `size` bytes.
    Complete { capsule: CapsuleView, size: nat },
}

/// What `s` starts with, under a payload limit.
pub open spec fn parse_capsule(s: Seq<u8>, limit: nat) -> CapsuleParse {
    if !varint::has_varint(s) {
        CapsuleParse::Incomplete
    } else {
        let type_width = varint::field_width(s[0]);
        let after_type = s.skip(type_width as int);
        if !varint::has_varint(after_type) {
            CapsuleParse::Incomplete
        } else {
            let length = varint::varint_value(after_type);
            let length_width = varint::field_width(after_type[0]);
            let body = after_type.skip(length_width as int);
            if length > limit {
                CapsuleParse::TooLarge { length, header: type_width + length_width }
            } else if body.len() < length {
                CapsuleParse::Incomplete
            } else {
                CapsuleParse::Complete {
                    capsule: CapsuleView {
                        capsule_type: capsule_type_of(varint::varint_value(s)),
                        payload: body.take(length as int),
                    },
                    size: type_width + length_width + length,
                }
            }
        }
    }
}

/// What a pass over a buffer of stream bytes finds.
pub struct Drained {
    /// The whole frames, in the order in which they came.
    pub capsules: Seq<CapsuleView>,
    /// The bytes that stay in the buffer.
    pub rest: Seq<u8>,
    /// The length of the frame that stopped the pass for being too large.
    pub refused: Option<nat>,
}

/// The frames at the front of `s`, up to the first that is incomplete or too large.
pub open spec fn drained(s: Seq<u8>, limit: nat) -> Drained
    decreases s.len(),
{
    match parse_capsule(s, limit) {
        CapsuleParse::Incomplete => Drained { capsules: Seq::empty(), rest: s, refused: None },
        CapsuleParse::TooLarge { length, .. } => Drained {
            capsules: Seq::empty(),
            rest: s,
            refused: Some(length),
        },
        CapsuleParse::Complete { capsule, size } => {
            let after = drained(s.skip(size as int), limit);
            Drained {
                capsules: seq![capsule] + after.capsules,
                rest: after.rest,
                refused: after.refused,
            }
        },
    }
}

/// The mathematical values of a list of capsules.
pub open spec fn capsule_views(v: Seq<Capsule>) -> Seq<CapsuleView> {
    v.map_values(|c: Capsule| c@)
}

impl Capsule {
    /// Appends the wire form of this capsule to `dst`.
    pub fn encode(&self, dst: &mut BytesMut)
        requires
            encodable(self@),
            buffers::bytes_mut_seq(*old(dst)).len() + capsule_bytes(self@).len() <= isize::MAX,
        ensures
            buffers::bytes_mut_seq(*final(dst)) == buffers::bytes_mut_seq(*old(dst))
                + capsule_bytes(self@),
    {
        let ghost before = buffers::bytes_mut_seq(*dst);
        proof {
            varint::lemma_varint_bytes_shape(capsule_type_value(self.capsule_type));
            varint::lemma_varint_bytes_shape(self@.payload.len());
        }
        encode_varint(dst, self.capsule_type.to_u64());
        encode_varint(dst, buffers::bytes_len(&self.payload) as u64);
        buffers::bytes_mut_extend_from_slice(dst, buffers::bytes_chunk(&self.payload));
        assert(buffers::bytes_mut_seq(*dst) =~= before + capsule_bytes(self@));
    }

    /// The wire form of this capsule.
    pub fn to_bytes(&self) -> (b: Bytes)
        requires
            encodable(self@),
            self@.payload.len() + 16 <= isize::MAX,
        ensures
            buffers::bytes_seq(b) == capsule_bytes(self@),
    {
        proof {
            varint::lemma_varint_bytes_shape(capsule_type_value(self.capsule_type));
            varint::lemma_varint_bytes_shape(self@.payload.len());
        }
        let mut buf: BytesMut = buffers::bytes_mut_with_capacity(
            16 + buffers::bytes_len(&self.payload),
        );
        self.encode(&mut buf);
        assert(Seq::<u8>::empty() + capsule_bytes(self@) =~= capsule_bytes(self@));
        buffers::bytes_mut_freeze(buf)
    }
}

/// Takes the first capsule out of a buffer of stream bytes, with the default limit.
pub fn decode_capsule(src: &mut BytesMut) -> (r: Result<Option<Capsule>, ProtocolError>)
    ensures
        match parse_capsule(
            buffers::bytes_mut_seq(*old(src)),
            DEFAULT_MAX_CAPSULE_PAYLOAD as nat,
        ) {
            CapsuleParse::Incomplete => r is Ok && r->Ok_0 is None && *final(src) == *old(src),
            CapsuleParse::TooLarge { length, .. } => r is Err && r->Err_0@
                == (ProtocolErrorView::CapsuleTooLarge {
                length,
                limit: DEFAULT_MAX_CAPSULE_PAYLOAD as nat,
            }) && *final(src) == *old(src),
            CapsuleParse::Complete { capsule, size } => r is Ok && r->Ok_0 is Some && r->Ok_0->0@
                == capsule && buffers::bytes_mut_seq(*final(src)) == buffers::bytes_mut_seq(
                *old(src),
            ).skip(size as int),
        },
{
    decode_capsule_with_limit(src, DEFAULT_MAX_CAPSULE_PAYLOAD)
}

/// Takes the first capsule out of a buffer of stream bytes.
///
/// A frame that is not there in whole yet is left in the buffer and answered
/// `Ok(None)`. A payload length over `max_payload` is refused, and the buffer left
/// as it is. A capsule of an unknown type is no error.
pub fn decode_capsule_with_limit(src: &mut BytesMut, max_payload: u64) -> (r: Result<
    Option<Capsule>,
    ProtocolError,
>)
    ensures
        match parse_capsule(buffers::bytes_mut_seq(*old(src)), max_payload as nat) {
            CapsuleParse::Incomplete => r is Ok && r->Ok_0 is None && *final(src) == *old(src),
            CapsuleParse::TooLarge { length, .. } => r is Err && r->Err_0@
                == (ProtocolErrorView::CapsuleTooLarge { length, limit: max_payload as nat })
                && *final(src) == *old(src),
            CapsuleParse::Complete { capsule, size } => r is Ok && r->Ok_0 is Some && r->Ok_0->0@
                == capsule && buffers::bytes_mut_seq(*final(src)) == buffers::bytes_mut_seq(
                *old(src),
            ).skip(size as int),
        },
{
    let ghost s = buffers::bytes_mut_seq(*src);
    let mut cursor: &[u8] = buffers::bytes_mut_chunk(src);
    let start_remaining: usize = cursor.remaining();

    let type_vi: VarInt = match decode_varint(&mut cursor)? {
        Some(v) => v,
        None => return Ok(None),
    };
    let capsule_type: CapsuleType = CapsuleType::from_u64(type_vi.value);

    let length_vi: VarInt = match decode_varint(&mut cursor)? {
        Some(v) => v,
        None => return Ok(None),
    };
    let payload_len: u64 = length_vi.value;
    if payload_len > max_payload {
        return Err(ProtocolError::CapsuleTooLarge { length: payload_len, limit: max_payload });
    }
    if (cursor.remaining() as u64) < payload_len {
        return Ok(None);
    }
    let header_len: usize = start_remaining - cursor.remaining();
    buffers::bytes_mut_advance(src, header_len);
    let payload: Bytes = buffers::bytes_mut_freeze(
        buffers::bytes_mut_split_to(src, payload_len as usize),
    );
    proof {
        let after_type = s.skip(type_vi.encoded_len as int);
        let body = after_type.skip(length_vi.encoded_len as int);
        assert(s.skip(header_len as int) =~= body);
        assert(body.skip(payload_len as int) =~= s.skip(header_len + payload_len));
    }
    Ok(Some(Capsule { capsule_type, payload }))
}

/// A byte sequence without its first `n` bytes.
pub open spec fn dropped(s: Seq<u8>, n: nat) -> Seq<u8> {
    if n >= s.len() {
        Seq::empty()
    } else {
        s.skip(n as int)
    }
}

/// How many of the first `n` bytes `s` does not have.
pub open spec fn missing(s: Seq<u8>, n: nat) -> nat {
    if n >= s.len() {
        (n - s.len()) as nat
    } else {
        0
    }
}

/// Drops a capsule that is over the limit from the front of a buffer of stream bytes, and
/// tells how many of its bytes have not come yet.
pub(crate) fn discard_capsule(src: &mut BytesMut, max_payload: u64) -> (left: u64)
    requires
        parse_capsule(buffers::bytes_mut_seq(*old(src)), max_payload as nat) is TooLarge,
    ensures
        ({
            let s = buffers::bytes_mut_seq(*old(src));
            let parsed = parse_capsule(s, max_payload as nat);
            let size = parsed->TooLarge_header + parsed->TooLarge_length;
            &&& buffers::bytes_mut_seq(*final(src)) == dropped(s, size)
            &&& left == missing(s, size)
        }),
{
    let ghost s = buffers::bytes_mut_seq(*src);
    let held: usize = buffers::bytes_mut_len(src);
    let mut cursor: &[u8] = buffers::bytes_mut_chunk(src);
    proof {
        varint::law_varint_range(s.skip(varint::field_width(s[0]) as int));
    }
    let size: u64 = match (decode_varint(&mut cursor), decode_varint(&mut cursor)) {
        (Ok(Some(kind)), Ok(Some(length))) => kind.encoded_len as u64 + length.encoded_len as u64
            + length.value,
        _ => 0,
    };
    if size >= held as u64 {
        buffers::bytes_mut_advance(src, held);
        assert(s.skip(held as int) =~= Seq::empty());
        size - held as u64
    } else {
        buffers::bytes_mut_advance(src, size as usize);
        0
    }
}

/// Takes every whole capsule out of a buffer of stream bytes.
///
/// A capsule that is too large ends the pass with its error; the capsules before it
/// are gone from the buffer.
pub fn drain_capsules(src: &mut BytesMut) -> (r: Result<Vec<Capsule>, ProtocolError>)
    ensures
        ({
            let d = drained(
                buffers::bytes_mut_seq(*old(src)),
                DEFAULT_MAX_CAPSULE_PAYLOAD as nat,
            );
            &&& buffers::bytes_mut_seq(*final(src)) == d.rest
            &&& match d.refused {
                None => r is Ok && capsule_views(r->Ok_0@) == d.capsules,
                Some(length) => r is Err && r->Err_0@ == (ProtocolErrorView::CapsuleTooLarge {
                    length,
                    limit: DEFAULT_MAX_CAPSULE_PAYLOAD as nat,
                }),
            }
        }),
{
    let ghost limit = DEFAULT_MAX_CAPSULE_PAYLOAD as nat;
    let ghost whole = drained(buffers::bytes_mut_seq(*src), limit);
    let mut out: Vec<Capsule> = Vec::new();
    assert(capsule_views(out@) =~= Seq::empty());
    assert(whole.capsules =~= capsule_views(out@) + whole.capsules);
    loop
        invariant
            limit == DEFAULT_MAX_CAPSULE_PAYLOAD,
            whole == drained(buffers::bytes_mut_seq(*old(src)), limit),
            ({
                let now = drained(buffers::bytes_mut_seq(*src), limit);
                &&& whole.capsules == capsule_views(out@) + now.capsules
                &&& whole.rest == now.rest
                &&& whole.refused == now.refused
            }),
        ensures
            whole.refused is None,
            whole.rest == buffers::bytes_mut_seq(*src),
            whole.capsules == capsule_views(out@),
        decreases buffers::bytes_mut_seq(*src).len(),
    {
        let ghost s = buffers::bytes_mut_seq(*src);
        let ghost before = out@;
        match decode_capsule(src) {
            Err(e) => {
                return Err(e);
            },
            Ok(Some(c)) => {
                out.push(c);
                assert(capsule_views(out@) =~= capsule_views(before).push(c@));
                assert(whole.capsules =~= capsule_views(out@) + drained(
                    buffers::bytes_mut_seq(*src),
                    limit,
                ).capsules);
            },
            Ok(None) => {
                assert(whole.capsules =~= capsule_views(out@));
                break;
            },
        }
    }
    Ok(out)
}

/// Every number stands for a type that is written as that number.
pub proof fn law_capsule_type_of_number(v: u64)
    ensures
        capsule_type_value(capsule_type_of(v as nat)) == v,
{
}

/// Whether a type is the one that its number stands for. `Unknown` with the number of
/// a type that has a name is not.
pub open spec fn canonical_type(t: CapsuleType) -> bool {
    capsule_type_of(capsule_type_value(t)) == t
}

/// A type is read back as it was written, unless it is `Unknown` with the number of a
/// type that has a name.
pub proof fn law_capsule_type_round_trip(t: CapsuleType)
    ensures
        canonical_type(t) <==> (t matches CapsuleType::Unknown(v) ==> v != 0x00 && v != 0x03 && v
            != 0x04 && v != 0x05),
{
}

/// The header fields of a wire form, with anything after the header.
proof fn lemma_capsule_header(c: CapsuleView, body: Seq<u8>)
    requires
        encodable(c),
    ensures
        ({
            let s = varint::varint_bytes(capsule_type_value(c.capsule_type))
                + varint::varint_bytes(c.payload.len()) + body;
            let after_type = s.skip(varint::field_width(s[0]) as int);
            &&& varint::has_varint(s)
            &&& varint::varint_value(s) == capsule_type_value(c.capsule_type)
            &&& varint::field_width(s[0]) == varint::varint_len(capsule_type_value(c.capsule_type))
            &&& varint::has_varint(after_type)
            &&& varint::varint_value(after_type) == c.payload.len()
            &&& varint::field_width(after_type[0]) == varint::varint_len(c.payload.len())
            &&& after_type.skip(varint::field_width(after_type[0]) as int) == body
        }),
{
    let type_field = varint::varint_bytes(capsule_type_value(c.capsule_type));
    let length_field = varint::varint_bytes(c.payload.len());
    let s = type_field + length_field + body;
    assert(s =~= type_field + (length_field + body));
    varint::law_varint_round_trip(capsule_type_value(c.capsule_type), length_field + body);
    varint::law_varint_round_trip(c.payload.len(), body);
}

/// Whatever follows a capsule on the wire, reading gives back the capsule that was
/// written and takes just the bytes of its wire form.
pub proof fn law_capsule_round_trip(c: CapsuleView, rest: Seq<u8>, limit: nat)
    requires
        encodable(c),
        canonical_type(c.capsule_type),
        c.payload.len() <= limit,
    ensures
        parse_capsule(capsule_bytes(c) + rest, limit) == (CapsuleParse::Complete {
            capsule: c,
            size: capsule_bytes(c).len(),
        }),
        (capsule_bytes(c) + rest).skip(capsule_bytes(c).len() as int) == rest,
{
    let header = varint::varint_bytes(capsule_type_value(c.capsule_type)) + varint::varint_bytes(
        c.payload.len(),
    );
    varint::lemma_varint_bytes_shape(capsule_type_value(c.capsule_type));
    varint::lemma_varint_bytes_shape(c.payload.len());
    lemma_capsule_header(c, c.payload + rest);
    assert(capsule_bytes(c) + rest =~= header + (c.payload + rest));
    assert((c.payload + rest).take(c.payload.len() as int) =~= c.payload);
    assert((capsule_bytes(c) + rest).skip(capsule_bytes(c).len() as int) =~= rest);
}

/// A capsule over the limit is refused as soon as its header is there, whatever of its
/// payload has come.
pub proof fn law_capsule_too_large(c: CapsuleView, body: Seq<u8>, limit: nat)
    requires
        encodable(c),
        c.payload.len() > limit,
    ensures
        parse_capsule(
            varint::varint_bytes(capsule_type_value(c.capsule_type)) + varint::varint_bytes(
                c.payload.len(),
            ) + body,
            limit,
        ) == (CapsuleParse::TooLarge {
            length: c.payload.len(),
            header: varint::varint_len(capsule_type_value(c.capsule_type)) + varint::varint_len(
                c.payload.len(),
            ),
        }),
{
    lemma_capsule_header(c, body);
}

/// While a part of a capsule within the limit is missing there is nothing to read.
pub proof fn law_capsule_half_packet(c: CapsuleView, k: nat, limit: nat)
    requires
        encodable(c),
        c.payload.len() <= limit,
        k < capsule_bytes(c).len(),
    ensures
        parse_capsule(capsule_bytes(c).take(k as int), limit) is Incomplete,
{
    let type_field = varint::varint_bytes(capsule_type_value(c.capsule_type));
    let length_field = varint::varint_bytes(c.payload.len());
    let part = capsule_bytes(c).take(k as int);
    varint::lemma_varint_bytes_shape(capsule_type_value(c.capsule_type));
    varint::lemma_varint_bytes_shape(c.payload.len());
    if k < type_field.len() {
        assert(part =~= type_field.take(k as int));
        varint::law_varint_half_packet(capsule_type_value(c.capsule_type), k);
    } else {
        let seen = (k - type_field.len()) as nat;
        let tail = (length_field + c.payload).take(seen as int);
        assert(part =~= type_field + tail);
        varint::law_varint_round_trip(capsule_type_value(c.capsule_type), tail);
        if seen < length_field.len() {
            assert(tail =~= length_field.take(seen as int));
            varint::law_varint_half_packet(c.payload.len(), seen);
        } else {
            let body = c.payload.take((seen - length_field.len()) as int);
            assert(tail =~= length_field + body);
            varint::law_varint_round_trip(c.payload.len(), body);
        }
    }
}

/// Bytes that arrive later do not change what is made of a frame that is there in
/// whole, nor of one that was refused.
pub proof fn law_capsule_extension(s: Seq<u8>, more: Seq<u8>, limit: nat)
    requires
        !(parse_capsule(s, limit) is Incomplete),
    ensures
        parse_capsule(s + more, limit) == parse_capsule(s, limit),
{
    varint::law_varint_extension(s, more);
    let after_type = s.skip(varint::field_width(s[0]) as int);
    varint::law_varint_extension(after_type, more);
    let length = varint::varint_value(after_type);
    let body = after_type.skip(varint::field_width(after_type[0]) as int);
    if body.len() >= length {
        assert((body + more).take(length as int) =~= body.take(length as int));
    }
}

/// The wire forms of several capsules, one after the other.
pub open spec fn stream_bytes(capsules: Seq<CapsuleView>) -> Seq<u8>
    decreases capsules.len(),
{
    if capsules.len() == 0 {
        Seq::empty()
    } else {
        capsule_bytes(capsules[0]) + stream_bytes(capsules.skip(1))
    }
}

/// Whether a list of capsules can be written and read back under a limit.
pub open spec fn all_fit(capsules: Seq<CapsuleView>, limit: nat) -> bool {
    forall|i: int|
        0 <= i < capsules.len() ==> encodable(#[trigger] capsules[i]) && canonical_type(
            capsules[i].capsule_type,
        ) && capsules[i].payload.len() <= limit
}

/// A pass over a whole frame and what follows it.
proof fn lemma_drain_step(c: CapsuleView, after: Seq<u8>, limit: nat)
    requires
        encodable(c),
        canonical_type(c.capsule_type),
        c.payload.len() <= limit,
    ensures
        drained(capsule_bytes(c) + after, limit) == (Drained {
            capsules: seq![c] + drained(after, limit).capsules,
            rest: drained(after, limit).rest,
            refused: drained(after, limit).refused,
        }),
{
    let s = capsule_bytes(c) + after;
    law_capsule_round_trip(c, after, limit);
    assert(s.skip(capsule_bytes(c).len() as int) == after);
}

/// Capsules that were written one after the other come out of a pass as they were
/// written, in that order, and the pass goes on with what follows them.
pub proof fn law_drain_stream(capsules: Seq<CapsuleView>, tail: Seq<u8>, limit: nat)
    requires
        all_fit(capsules, limit),
    ensures
        drained(stream_bytes(capsules) + tail, limit) == (Drained {
            capsules: capsules + drained(tail, limit).capsules,
            rest: drained(tail, limit).rest,
            refused: drained(tail, limit).refused,
        }),
    decreases capsules.len(),
{
    let end = drained(tail, limit);
    if capsules.len() == 0 {
        assert(stream_bytes(capsules) + tail =~= tail);
        assert(capsules + end.capsules =~= end.capsules);
    } else {
        let others = capsules.skip(1);
        let after = stream_bytes(others) + tail;
        assert(stream_bytes(capsules) + tail == capsule_bytes(capsules[0]) + after) by {
            assert(stream_bytes(capsules) + tail =~= capsule_bytes(capsules[0]) + after);
        }
        assert(all_fit(others, limit)) by {
            assert forall|i: int| 0 <= i < others.len() implies encodable(#[trigger] others[i])
                && canonical_type(others[i].capsule_type) && others[i].payload.len() <= limit by {
                assert(others[i] == capsules[i + 1]);
            }
        }
        law_drain_stream(others, tail, limit);
        lemma_drain_step(capsules[0], after, limit);
        assert(seq![capsules[0]] + (others + end.capsules) =~= capsules + end.capsules);
    }
}

/// How a stream is cut into chunks makes no difference: a pass over what came first,
/// and then one over what it left together with what came next, find together what one
/// pass over both finds.
pub proof fn law_drain_chunks(first: Seq<u8>, next: Seq<u8>, limit: nat)
    ensures
        drained(first + next, limit) == ({
            let a = drained(first, limit);
            let b = drained(a.rest + next, limit);
            Drained { capsules: a.capsules + b.capsules, rest: b.rest, refused: b.refused }
        }),
    decreases first.len(),
{
    let a = drained(first, limit);
    let b = drained(a.rest + next, limit);
    match parse_capsule(first, limit) {
        CapsuleParse::Complete { capsule, size } => {
            law_capsule_extension(first, next, limit);
            let after = first.skip(size as int);
            assert((first + next).skip(size as int) =~= after + next);
            law_drain_chunks(after, next, limit);
            assert(seq![capsule] + (drained(after, limit).capsules + b.capsules) =~= a.capsules
                + b.capsules);
        },
        _ => {
            assert(a.capsules + b.capsules =~= b.capsules);
        },
    }
}

/// What a pass leaves holds no whole frame: another pass over it finds nothing.
pub proof fn law_drain_leaves_no_frame(s: Seq<u8>, limit: nat)
    ensures
        drained(drained(s, limit).rest, limit) == (Drained {
            capsules: Seq::empty(),
            rest: drained(s, limit).rest,
            refused: drained(s, limit).refused,
        }),
    decreases s.len(),
{
    match parse_capsule(s, limit) {
        CapsuleParse::Complete { size, .. } => {
            law_drain_leaves_no_frame(s.skip(size as int), limit);
        },
        _ => {},
    }
}

/// The numbers that have a name are 0, 3, 4 and 5, and those of the names are these; every
/// other number is its own type, and `Unknown` keeps the number.
pub proof fn law_capsule_type_numbers(v: u64)
    ensures
        capsule_type_of(v as nat) == CapsuleType::Datagram <==> v == 0,
        capsule_type_of(v as nat) == CapsuleType::AddressAssign <==> v == 3,
        capsule_type_of(v as nat) == CapsuleType::AddressRequest <==> v == 4,
        capsule_type_of(v as nat) == CapsuleType::RouteAdvertisement <==> v == 5,
        v == 1 || v == 2 || v > 5 ==> capsule_type_of(v as nat) == CapsuleType::Unknown(v),
        capsule_type_value(CapsuleType::Datagram) == 0,
        capsule_type_value(CapsuleType::AddressAssign) == 3,
        capsule_type_value(CapsuleType::AddressRequest) == 4,
        capsule_type_value(CapsuleType::RouteAdvertisement) == 5,
        capsule_type_value(CapsuleType::Unknown(v)) == v,
{
}

/// What a diagnostic calls a type: its name, and for one without a name its number.
pub proof fn law_capsule_type_names(v: u64)
    ensures
        capsule_type_text(CapsuleType::Datagram) == "Datagram"@,
        capsule_type_text(CapsuleType::AddressAssign) == "AddressAssign"@,
        capsule_type_text(CapsuleType::AddressRequest) == "AddressRequest"@,
        capsule_type_text(CapsuleType::RouteAdvertisement) == "RouteAdvertisement"@,
        capsule_type_text(CapsuleType::Unknown(v)) == "Unknown("@ + text::decimal_text(v as nat)
            + ")"@,
{
}

/// What a capsule can be written with: every type number and every payload length of up to 62
/// bits.
pub proof fn law_capsule_encodable(c: CapsuleView)
    ensures
        encodable(c) <==> c.payload.len() < 0x4000_0000_0000_0000 && match c.capsule_type {
            CapsuleType::Unknown(v) => v < 0x4000_0000_0000_0000,
            _ => true,
        },
        DEFAULT_MAX_CAPSULE_PAYLOAD == 65535,
{
}

/// The view of a capsule is its type and the bytes of its payload.
pub proof fn law_capsule_view(c: Capsule)
    ensures
        c@.capsule_type == c.capsule_type,
        c@.payload == buffers::bytes_seq(c.payload),
{
}

/// The wire form of a capsule, whatever its payload: first the field of the number of its
/// type, 0 for every DATAGRAM capsule, then the field of the number of payload bytes, then
/// those bytes. Both fields are as narrow as can be.
pub proof fn law_capsule_wire(c: CapsuleView)
    requires
        encodable(c),
    ensures
        ({
            let s = capsule_bytes(c);
            let number = match c.capsule_type {
                CapsuleType::Datagram => 0,
                CapsuleType::AddressAssign => 3,
                CapsuleType::AddressRequest => 4,
                CapsuleType::RouteAdvertisement => 5,
                CapsuleType::Unknown(v) => v as nat,
            };
            let after_type = s.skip(varint::varint_len(number) as int);
            let length_width = varint::varint_len(c.payload.len()) as int;
            &&& varint::has_varint(s)
            &&& varint::varint_value(s) == number
            &&& varint::field_width(s[0]) == varint::varint_len(number)
            &&& number < 64 ==> s[0] == number
            &&& varint::has_varint(after_type)
            &&& varint::varint_value(after_type) == c.payload.len()
            &&& varint::field_width(after_type[0]) == length_width
            &&& after_type.skip(length_width) == c.payload
        }),
{
    lemma_capsule_header(c, c.payload);
    varint::law_varint_fields(capsule_bytes(c));
}

/// What is read off the wire is what stands there. The first field alone decides the type,
/// whatever the payload: 0 is DATAGRAM, 3 is ADDRESS_ASSIGN, 4 is ADDRESS_REQUEST, 5 is
/// ROUTE_ADVERTISEMENT, and any other number is kept. The second field is the number of bytes
/// of the payload, which are the bytes right behind it, and the frame ends with them.
pub proof fn law_capsule_is_what_stands_there(s: Seq<u8>, limit: nat)
    ensures
        parse_capsule(s, limit) matches CapsuleParse::Complete { capsule, size } ==> {
            let number = varint::varint_value(s);
            let type_width = varint::field_width(s[0]) as int;
            let after_type = s.skip(type_width);
            let start = size - capsule.payload.len();
            &&& varint::has_varint(s)
            &&& capsule.capsule_type == CapsuleType::Datagram <==> number == 0
            &&& capsule.capsule_type == CapsuleType::AddressAssign <==> number == 3
            &&& capsule.capsule_type == CapsuleType::AddressRequest <==> number == 4
            &&& capsule.capsule_type == CapsuleType::RouteAdvertisement <==> number == 5
            &&& capsule.capsule_type matches CapsuleType::Unknown(v) ==> v == number
            &&& varint::has_varint(after_type)
            &&& varint::varint_value(after_type) == capsule.payload.len()
            &&& start == type_width + varint::field_width(after_type[0])
            &&& size <= s.len()
            &&& s.subrange(start, size as int) == capsule.payload
            &&& capsule.payload.len() <= limit
        },
{
    if let CapsuleParse::Complete { capsule, size } = parse_capsule(s, limit) {
        let after_type = s.skip(varint::field_width(s[0]) as int);
        let start = size - capsule.payload.len();
        varint::law_varint_range(s);
        assert(s.subrange(start, size as int) =~= capsule.payload);
    }
}

/// When a frame is there, refused or awaited: it is refused just when both fields are there
/// and announce more bytes than the limit, whatever the type; it is there just when they are,
/// announce no more than the limit, and as many bytes follow; and in all other cases more
/// bytes are awaited.
pub proof fn law_capsule_cases(s: Seq<u8>, limit: nat)
    ensures
        ({
            let after_type = s.skip(varint::field_width(s[0]) as int);
            let fields = varint::has_varint(s) && varint::has_varint(after_type);
            let length = varint::varint_value(after_type);
            let header = varint::field_width(s[0]) + varint::field_width(after_type[0]);
            &&& parse_capsule(s, limit) is TooLarge <==> fields && length > limit
            &&& parse_capsule(s, limit) is Complete <==> fields && length <= limit && s.len()
                >= header + length
            &&& parse_capsule(s, limit) matches CapsuleParse::TooLarge { length: l, header: h }
                ==> l == length && h == header
        }),
{
}

/// A pass over a buffer is decoding capsule by capsule: a whole frame comes first and then all
/// that a pass over what follows it finds; where there is none the pass ends, leaves the bytes
/// as they are, and is refused just if the frame there is.
pub proof fn law_drain_is_decoding_in_turn(s: Seq<u8>, limit: nat)
    ensures
        match parse_capsule(s, limit) {
            CapsuleParse::Complete { capsule, size } => {
                let after = drained(s.skip(size as int), limit);
                &&& drained(s, limit).capsules.len() == after.capsules.len() + 1
                &&& drained(s, limit).capsules[0] == capsule
                &&& drained(s, limit).capsules.skip(1) == after.capsules
                &&& drained(s, limit).rest == after.rest
                &&& drained(s, limit).refused == after.refused
            },
            CapsuleParse::TooLarge { length, .. } => {
                &&& drained(s, limit).capsules.len() == 0
                &&& drained(s, limit).rest == s
                &&& drained(s, limit).refused == Some(length)
            },
            CapsuleParse::Incomplete => {
                &&& drained(s, limit).capsules.len() == 0
                &&& drained(s, limit).rest == s
                &&& drained(s, limit).refused is None
            },
        },
{
    if let CapsuleParse::Complete { size, .. } = parse_capsule(s, limit) {
        assert(drained(s, limit).capsules.skip(1) =~= drained(
            s.skip(size as int),
            limit,
        ).capsules);
    }
}

/// Dropping a run of bytes leaves what follows it, and while a part of the run has not come
/// nothing is left and just that part is missing.
pub proof fn law_dropped(run: Seq<u8>, after: Seq<u8>, k: nat)
    ensures
        dropped(run + after, run.len()) == after,
        missing(run + after, run.len()) == 0,
        dropped(run, run.len() + k) == Seq::<u8>::empty(),
        missing(run, run.len() + k) == k,
{
    assert(dropped(run + after, run.len()) =~= after);
}

} // verus!
