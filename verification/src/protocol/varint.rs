//! The variable-length integers of QUIC.
//!
//! The two top bits of the first byte give the width of the field, 1, 2, 4 or 8
//! bytes; the other bits are the value, most significant byte first.

use bytes::BytesMut;
use vstd::arithmetic::div_mod::*;
use vstd::arithmetic::power::*;
use vstd::prelude::*;

use crate::buffers;
use crate::buffers::{ByteSink, ByteSource};
use crate::protocol::error::ProtocolError;

verus! {

/// A byte sequence as a number, most significant byte first.
pub open spec fn be_value(s: Seq<u8>) -> nat
    decreases s.len(),
{
    if s.len() == 0 {
        0
    } else {
        be_value(s.drop_last()) * 256 + s.last() as nat
    }
}

/// The last `width` base-256 digits of `n`, most significant first.
pub open spec fn be_bytes(n: nat, width: nat) -> Seq<u8>
    decreases width,
{
    if width == 0 {
        Seq::empty()
    } else {
        be_bytes(n / 256, (width - 1) as nat).push((n % 256) as u8)
    }
}

/// The shortest field width that carries `value`.
pub open spec fn varint_len(value: nat) -> nat {
    if value <= 63 {
        1
    } else if value <= 16_383 {
        2
    } else if value <= 1_073_741_823 {
        4
    } else {
        8
    }
}

/// The field width that a first byte announces.
pub open spec fn field_width(first: u8) -> nat {
    if first < 0x40 {
        1
    } else if first < 0x80 {
        2
    } else if first < 0xC0 {
        4
    } else {
        8
    }
}

/// How many values a field of the given width can carry.
pub open spec fn value_span(width: nat) -> nat {
    if width == 1 {
        0x40
    } else if width == 2 {
        0x4000
    } else if width == 4 {
        0x4000_0000
    } else {
        0x4000_0000_0000_0000
    }
}

/// The two bits that announce a field width.
pub open spec fn width_tag(width: nat) -> nat {
    if width == 1 {
        0
    } else if width == 2 {
        1
    } else if width == 4 {
        2
    } else {
        3
    }
}

/// The encoding of `value` in the shortest field.
pub open spec fn varint_bytes(value: nat) -> Seq<u8> {
    let width = varint_len(value);
    be_bytes(width_tag(width) * value_span(width) + value, width)
}

/// Whether `s` starts with a whole field.
pub open spec fn has_varint(s: Seq<u8>) -> bool {
    s.len() > 0 && s.len() >= field_width(s[0])
}

/// The value of the field that `s` starts with.
pub open spec fn varint_value(s: Seq<u8>) -> nat
    recommends
        has_varint(s),
{
    be_value(s.take(field_width(s[0]) as int)) % value_span(field_width(s[0]))
}

/// A decoded variable-length integer and the number of bytes that it took.
#[derive(Debug, Clone, Copy, PartialEq, Eq, Structural)]
pub struct VarInt {
    pub value: u64,
    pub encoded_len: usize,
}

impl VarInt {
    /// The largest value that a field can carry, `2^62 - 1`.
    pub const MAX: u64 = 0x3FFF_FFFF_FFFF_FFFF;

    /// A value with its shortest width. The value is not checked against `MAX`.
    pub fn from_u64_unchecked(value: u64) -> (v: VarInt)
        ensures
            v.value == value,
            v.encoded_len == varint_len(value as nat),
    {
        VarInt { value, encoded_len: Self::encoded_len_for(value) }
    }

    /// A value with its shortest width, refused when it is over `MAX`.
    pub fn try_from_u64(value: u64) -> (r: Result<VarInt, ProtocolError>)
        ensures
            value > Self::MAX ==> r == Err::<VarInt, ProtocolError>(ProtocolError::VarIntOverflow),
            value <= Self::MAX ==> (r matches Ok(v) && v.value == value && v.encoded_len
                == varint_len(value as nat)),
    {
        if value > Self::MAX {
            return Err(ProtocolError::VarIntOverflow);
        }
        Ok(Self::from_u64_unchecked(value))
    }

    /// The number of bytes that the shortest encoding of `value` takes.
    pub fn encoded_len_for(value: u64) -> (n: usize)
        ensures
            n == varint_len(value as nat),
    {
        if value <= 63 {
            1
        } else if value <= 16_383 {
            2
        } else if value <= 1_073_741_823 {
            4
        } else {
            8
        }
    }
}

/// The two length bits of a first byte, and the field width that they announce.
pub fn varint_prefix(first_byte: u8) -> (r: (u8, usize))
    ensures
        r.0 == width_tag(field_width(first_byte)),
        r.1 == field_width(first_byte),
{
    let prefix: u8 = first_byte >> 6;
    assert(prefix == (if first_byte < 0x40 {
        0u8
    } else if first_byte < 0x80 {
        1u8
    } else if first_byte < 0xC0 {
        2u8
    } else {
        3u8
    })) by (bit_vector)
        requires
            prefix == first_byte >> 6,
    ;
    let len: usize = 1usize << prefix;
    assert(len == (if prefix == 0 {
        1usize
    } else if prefix == 1 {
        2usize
    } else if prefix == 2 {
        4usize
    } else {
        8usize
    })) by (bit_vector)
        requires
            prefix <= 3,
            len == 1usize << prefix,
    ;
    (prefix, len)
}

/// `be_value` of two, four and eight bytes, written out.
proof fn lemma_be_value_unrolled(s: Seq<u8>)
    ensures
        s.len() == 1 ==> be_value(s) == s[0],
        s.len() == 2 ==> be_value(s) == s[0] * 0x100 + s[1],
        s.len() == 4 ==> be_value(s) == s[0] * 0x100_0000 + s[1] * 0x1_0000 + s[2] * 0x100 + s[3],
        s.len() == 8 ==> be_value(s) == s[0] * 0x100_0000_0000_0000 + s[1] * 0x1_0000_0000_0000
            + s[2] * 0x100_0000_0000 + s[3] * 0x1_0000_0000 + s[4] * 0x100_0000 + s[5] * 0x1_0000
            + s[6] * 0x100 + s[7],
{
    reveal_with_fuel(be_value, 9);
}

/// The length of `be_bytes`, and each of its digits.
proof fn lemma_be_bytes_digits(n: nat, width: nat)
    ensures
        be_bytes(n, width).len() == width,
        forall|k: int|
            0 <= k < width ==> #[trigger] be_bytes(n, width)[k] == (n as int / pow(
                256,
                (width - 1 - k) as nat,
            )) % 256,
    decreases width,
{
    if width > 0 {
        let upper = be_bytes(n / 256, (width - 1) as nat);
        lemma_be_bytes_digits(n / 256, (width - 1) as nat);
        assert forall|k: int| 0 <= k < width implies #[trigger] be_bytes(n, width)[k] == (n as int
            / pow(256, (width - 1 - k) as nat)) % 256 by {
            if k == width - 1 {
                lemma_pow0(256);
                assert(n as int / 1 == n);
            } else {
                let place = (width - 2 - k) as nat;
                lemma_pow_positive(256, place);
                assert(pow(256, place + 1) == 256 * pow(256, place)) by {
                    reveal(pow);
                }
                assert(be_bytes(n, width)[k] == upper[k]);
                assert(upper[k] == ((n / 256) as int / pow(256, place)) % 256);
                lemma_div_denominator(n as int, 256, pow(256, place));
            }
        }
    }
}

/// The powers of 256 up to the eighth.
proof fn lemma_pow_256()
    ensures
        pow(256, 0) == 1,
        pow(256, 1) == 0x100,
        pow(256, 2) == 0x1_0000,
        pow(256, 3) == 0x100_0000,
        pow(256, 4) == 0x1_0000_0000,
        pow(256, 5) == 0x100_0000_0000,
        pow(256, 6) == 0x1_0000_0000_0000,
        pow(256, 7) == 0x100_0000_0000_0000,
        pow(256, 8) == 0x1_0000_0000_0000_0000,
{
    reveal_with_fuel(pow, 9);
}

/// `be_bytes` of one, two, four and eight digits, written out.
proof fn lemma_be_bytes_unrolled(n: nat)
    ensures
        be_bytes(n, 1) =~= seq![(n % 256) as u8],
        be_bytes(n, 2) =~= seq![((n / 0x100) % 256) as u8, (n % 256) as u8],
        be_bytes(n, 4) =~= seq![
            ((n / 0x100_0000) % 256) as u8,
            ((n / 0x1_0000) % 256) as u8,
            ((n / 0x100) % 256) as u8,
            (n % 256) as u8,
        ],
        be_bytes(n, 8) =~= seq![
            ((n / 0x100_0000_0000_0000) % 256) as u8,
            ((n / 0x1_0000_0000_0000) % 256) as u8,
            ((n / 0x100_0000_0000) % 256) as u8,
            ((n / 0x1_0000_0000) % 256) as u8,
            ((n / 0x100_0000) % 256) as u8,
            ((n / 0x1_0000) % 256) as u8,
            ((n / 0x100) % 256) as u8,
            (n % 256) as u8,
        ],
{
    lemma_pow_256();
    lemma_be_bytes_digits(n, 1);
    lemma_be_bytes_digits(n, 2);
    lemma_be_bytes_digits(n, 4);
    lemma_be_bytes_digits(n, 8);
}

/// Reads the field that `src` starts with.
///
/// Answers `Ok(None)`, and leaves `src` as it is, while the field is not there in
/// whole. No field is refused, so the error case does not occur.
pub fn decode_varint<B: ByteSource>(src: &mut B) -> (r: Result<Option<VarInt>, ProtocolError>)
    ensures
        r is Ok,
        !has_varint(old(src).unread()) ==> r->Ok_0 is None && *final(src) == *old(src),
        has_varint(old(src).unread()) ==> (r->Ok_0 matches Some(v) && v.value == varint_value(
            old(src).unread(),
        ) && v.encoded_len == field_width(old(src).unread()[0]) && final(src).unread()
            == old(src).unread().skip(v.encoded_len as int)),
{
    let ghost s = src.unread();
    if src.remaining() < 1 {
        return Ok(None);
    }
    let first: u8 = src.chunk()[0];
    let (prefix, total_len): (u8, usize) = varint_prefix(first);
    if src.remaining() < total_len {
        return Ok(None);
    }
    let ghost field = s.take(total_len as int);
    proof {
        lemma_be_value_unrolled(field);
    }
    src.advance(1);
    let value: u64 = match prefix {
        0 => {
            assert(first as u64 & 0x3F == first as u64 % 0x40) by (bit_vector);
            first as u64 & 0x3F
        },
        1 => {
            let lo: u8 = src.get_u8();
            assert((((first as u64) & 0x3F) << 8) | (lo as u64) == (first * 0x100 + lo) % 0x4000)
                by (bit_vector);
            (((first as u64) & 0x3F) << 8) | (lo as u64)
        },
        2 => {
            let b1: u8 = src.get_u8();
            let b2: u8 = src.get_u8();
            let b3: u8 = src.get_u8();
            assert((((first as u64) & 0x3F) << 24) | ((b1 as u64) << 16) | ((b2 as u64) << 8) | (
            b3 as u64) == (first * 0x100_0000 + b1 * 0x1_0000 + b2 * 0x100 + b3) % 0x4000_0000)
                by (bit_vector);
            (((first as u64) & 0x3F) << 24) | ((b1 as u64) << 16) | ((b2 as u64) << 8) | (b3 as u64)
        },
        _ => {
            let b1: u8 = src.get_u8();
            let b2: u8 = src.get_u8();
            let b3: u8 = src.get_u8();
            let b4: u8 = src.get_u8();
            let b5: u8 = src.get_u8();
            let b6: u8 = src.get_u8();
            let b7: u8 = src.get_u8();
            assert((((first as u64) & 0x3F) << 56) | ((b1 as u64) << 48) | ((b2 as u64) << 40) | ((
            b3 as u64) << 32) | ((b4 as u64) << 24) | ((b5 as u64) << 16) | ((b6 as u64) << 8) | (
            b7 as u64) == (first * 0x100_0000_0000_0000 + b1 * 0x1_0000_0000_0000 + b2
                * 0x100_0000_0000 + b3 * 0x1_0000_0000 + b4 * 0x100_0000 + b5 * 0x1_0000 + b6
                * 0x100 + b7) % 0x4000_0000_0000_0000) by (bit_vector);
            (((first as u64) & 0x3F) << 56) | ((b1 as u64) << 48) | ((b2 as u64) << 40) | ((
            b3 as u64) << 32) | ((b4 as u64) << 24) | ((b5 as u64) << 16) | ((b6 as u64) << 8) | (
            b7 as u64)
        },
    };
    assert(src.unread() =~= s.skip(total_len as int));
    Ok(Some(VarInt { value, encoded_len: total_len }))
}

/// Appends the shortest encoding of `value`.
pub fn encode_varint<B: ByteSink>(dst: &mut B, value: u64)
    requires
        value <= VarInt::MAX,
        old(dst).room() >= varint_len(value as nat),
    ensures
        final(dst).written() == old(dst).written() + varint_bytes(value as nat),
        final(dst).room() == old(dst).room() - varint_len(value as nat),
{
    let ghost before = dst.written();
    let ghost width = varint_len(value as nat);
    let ghost tagged = (width_tag(width) * value_span(width) + value) as nat;
    proof {
        lemma_be_bytes_unrolled(tagged);
    }
    if value <= 63 {
        dst.put_u8(value as u8);
    } else if value <= 16_383 {
        assert(0x40 | ((value >> 8) as u8) == ((0x4000 + value) / 0x100) % 256 && (value & 0xFF)
            == (0x4000 + value) % 256) by (bit_vector)
            requires
                value <= 16_383,
        ;
        dst.put_u8(0x40 | ((value >> 8) as u8));
        dst.put_u8((value & 0xFF) as u8);
    } else if value <= 1_073_741_823 {
        assert(0x80 | ((value >> 24) as u8) == ((0x8000_0000 + value) / 0x100_0000) % 256 && ((value
            >> 16) & 0xFF) == ((0x8000_0000 + value) / 0x1_0000) % 256 && ((value >> 8) & 0xFF) == (
        (0x8000_0000 + value) / 0x100) % 256 && (value & 0xFF) == (0x8000_0000 + value) % 256)
            by (bit_vector)
            requires
                value <= 1_073_741_823,
        ;
        dst.put_u8(0x80 | ((value >> 24) as u8));
        dst.put_u8(((value >> 16) & 0xFF) as u8);
        dst.put_u8(((value >> 8) & 0xFF) as u8);
        dst.put_u8((value & 0xFF) as u8);
    } else {
        assert(0xC0 | ((value >> 56) as u8) == ((0xC000_0000_0000_0000 + value)
            / 0x100_0000_0000_0000) % 256 && ((value >> 48) & 0xFF) == ((0xC000_0000_0000_0000
            + value) / 0x1_0000_0000_0000) % 256 && ((value >> 40) & 0xFF) == ((
        0xC000_0000_0000_0000 + value) / 0x100_0000_0000) % 256 && ((value >> 32) & 0xFF) == ((
        0xC000_0000_0000_0000 + value) / 0x1_0000_0000) % 256 && ((value >> 24) & 0xFF) == ((
        0xC000_0000_0000_0000 + value) / 0x100_0000) % 256 && ((value >> 16) & 0xFF) == ((
        0xC000_0000_0000_0000 + value) / 0x1_0000) % 256 && ((value >> 8) & 0xFF) == ((
        0xC000_0000_0000_0000 + value) / 0x100) % 256 && (value & 0xFF) == (0xC000_0000_0000_0000
            + value) % 256) by (bit_vector)
            requires
                value <= 0x3FFF_FFFF_FFFF_FFFF,
        ;
        dst.put_u8(0xC0 | ((value >> 56) as u8));
        dst.put_u8(((value >> 48) & 0xFF) as u8);
        dst.put_u8(((value >> 40) & 0xFF) as u8);
        dst.put_u8(((value >> 32) & 0xFF) as u8);
        dst.put_u8(((value >> 24) & 0xFF) as u8);
        dst.put_u8(((value >> 16) & 0xFF) as u8);
        dst.put_u8(((value >> 8) & 0xFF) as u8);
        dst.put_u8((value & 0xFF) as u8);
    }
    assert(dst.written() =~= before + varint_bytes(value as nat));
}

/// The shortest encoding of `value` in a fresh buffer.
pub fn varint_to_bytes(value: u64) -> (b: BytesMut)
    requires
        value <= VarInt::MAX,
    ensures
        buffers::bytes_mut_seq(b) == varint_bytes(value as nat),
{
    let mut buf: BytesMut = buffers::bytes_mut_with_capacity(8);
    encode_varint(&mut buf, value);
    buf
}

/// An encoding takes `varint_len` bytes, and its first byte announces them.
pub proof fn lemma_varint_bytes_shape(value: nat)
    requires
        value <= VarInt::MAX,
    ensures
        varint_bytes(value).len() == varint_len(value),
        field_width(varint_bytes(value)[0]) == varint_len(value),
{
    let width = varint_len(value);
    lemma_be_bytes_unrolled(width_tag(width) * value_span(width) + value);
}

/// Writing a number in base 256 and reading it back gives the number.
proof fn lemma_be_inverse(n: nat, width: nat)
    requires
        n < pow(256, width),
    ensures
        be_value(be_bytes(n, width)) == n,
    decreases width,
{
    if width == 0 {
        lemma_pow0(256);
    } else {
        reveal(pow);
        lemma_be_inverse(n / 256, (width - 1) as nat);
        assert(be_bytes(n, width).drop_last() =~= be_bytes(n / 256, (width - 1) as nat));
    }
}

/// Whatever follows an encoding, reading gives back the value that was written and
/// takes just the bytes of the encoding.
pub proof fn law_varint_round_trip(value: nat, rest: Seq<u8>)
    requires
        value <= VarInt::MAX,
    ensures
        has_varint(varint_bytes(value) + rest),
        varint_value(varint_bytes(value) + rest) == value,
        field_width((varint_bytes(value) + rest)[0]) == varint_len(value),
        (varint_bytes(value) + rest).skip(varint_len(value) as int) == rest,
{
    let s = varint_bytes(value) + rest;
    let width = varint_len(value);
    let field = s.take(width as int);
    lemma_varint_bytes_shape(value);
    assert(field =~= varint_bytes(value));
    lemma_pow_256();
    lemma_be_inverse(width_tag(width) * value_span(width) + value, width);
    assert(s.skip(width as int) =~= rest);
}

/// While a part of an encoding is missing there is nothing to read.
pub proof fn law_varint_half_packet(value: nat, k: nat)
    requires
        value <= VarInt::MAX,
        k < varint_len(value),
    ensures
        !has_varint(varint_bytes(value).take(k as int)),
{
    lemma_varint_bytes_shape(value);
}

/// Bytes that arrive later do not change a field that is there in whole.
pub proof fn law_varint_extension(s: Seq<u8>, more: Seq<u8>)
    requires
        has_varint(s),
    ensures
        has_varint(s + more),
        field_width((s + more)[0]) == field_width(s[0]),
        varint_value(s + more) == varint_value(s),
        (s + more).skip(field_width(s[0]) as int) == s.skip(field_width(s[0]) as int) + more,
{
    let width = field_width(s[0]) as int;
    assert((s + more).take(width) =~= s.take(width));
    assert((s + more).skip(width) =~= s.skip(width) + more);
}

/// A field is the encoding of its value just when it is no wider than it needs to be.
pub proof fn law_varint_canonical(s: Seq<u8>)
    requires
        has_varint(s),
    ensures
        s.take(field_width(s[0]) as int) == varint_bytes(varint_value(s)) <==> field_width(s[0])
            == varint_len(varint_value(s)),
{
    let width = field_width(s[0]);
    let field = s.take(width as int);
    let value = varint_value(s);
    law_varint_range(s);
    lemma_varint_bytes_shape(value);
    if width == varint_len(value) {
        lemma_be_value_unrolled(field);
        assert(field[0] == s[0]);
        let n = be_value(field);
        let low = width_tag(width) * value_span(width);
        if width == 1 {
            assert(low == 0 && n < 0x40);
            lemma_fundamental_div_mod_converse(n as int, 0x40, 0, n as int);
        } else if width == 2 {
            assert(low == 0x4000 && low <= n < 0x8000);
            lemma_fundamental_div_mod_converse(n as int, 0x4000, 1, n - low);
        } else if width == 4 {
            assert(low == 0x8000_0000 && low <= n < 0xC000_0000);
            lemma_fundamental_div_mod_converse(n as int, 0x4000_0000, 2, n - low);
        } else {
            assert(low == 0xC000_0000_0000_0000 && low <= n < 0x1_0000_0000_0000_0000);
            lemma_fundamental_div_mod_converse(n as int, 0x4000_0000_0000_0000, 3, n - low);
        }
        lemma_be_unique(field);
    }
}

/// A byte sequence is the writing in base 256 of the number that it is read as.
proof fn lemma_be_unique(s: Seq<u8>)
    ensures
        be_bytes(be_value(s), s.len()) == s,
    decreases s.len(),
{
    if s.len() > 0 {
        lemma_be_unique(s.drop_last());
        assert(be_value(s) / 256 == be_value(s.drop_last()));
        assert(be_value(s) % 256 == s.last());
        assert(be_bytes(be_value(s), s.len()) =~= s);
    } else {
        assert(be_bytes(be_value(s), s.len()) =~= s);
    }
}

/// Every field carries a value in range, and is at least as wide as the shortest
/// encoding of that value.
pub proof fn law_varint_range(s: Seq<u8>)
    requires
        has_varint(s),
    ensures
        varint_value(s) <= VarInt::MAX,
        varint_len(varint_value(s)) <= field_width(s[0]),
{
}

/// The fields on the wire, byte by byte. A first byte below 0x40 is a value by itself; one
/// below 0x80 starts a field of two bytes, one below 0xC0 of four, any other of eight. The
/// value is all of the field but its two top bits, most significant byte first, and is there
/// just when all bytes of the field are.
pub proof fn law_varint_fields(s: Seq<u8>)
    ensures
        s.len() == 0 ==> !has_varint(s),
        s.len() > 0 && s[0] < 0x40 ==> field_width(s[0]) == 1 && has_varint(s) && varint_value(s)
            == s[0],
        s.len() > 0 && 0x40 <= s[0] < 0x80 ==> field_width(s[0]) == 2 && (has_varint(s)
            <==> s.len() >= 2),
        s.len() >= 2 && 0x40 <= s[0] < 0x80 ==> varint_value(s) == (s[0] - 0x40) * 0x100 + s[1],
        s.len() > 0 && 0x80 <= s[0] < 0xC0 ==> field_width(s[0]) == 4 && (has_varint(s)
            <==> s.len() >= 4),
        s.len() >= 4 && 0x80 <= s[0] < 0xC0 ==> varint_value(s) == (s[0] - 0x80) * 0x100_0000
            + s[1] * 0x1_0000 + s[2] * 0x100 + s[3],
        s.len() > 0 && 0xC0 <= s[0] ==> field_width(s[0]) == 8 && (has_varint(s) <==> s.len()
            >= 8),
        s.len() >= 8 && 0xC0 <= s[0] ==> varint_value(s) == (s[0] - 0xC0) * 0x100_0000_0000_0000
            + s[1] * 0x1_0000_0000_0000 + s[2] * 0x100_0000_0000 + s[3] * 0x1_0000_0000 + s[4]
            * 0x100_0000 + s[5] * 0x1_0000 + s[6] * 0x100 + s[7],
{
    if has_varint(s) {
        let width = field_width(s[0]);
        let field = s.take(width as int);
        let n = be_value(field) as int;
        lemma_be_value_unrolled(field);
        if width == 1 {
            lemma_fundamental_div_mod_converse(n, 0x40, 0, n);
        } else if width == 2 {
            lemma_fundamental_div_mod_converse(n, 0x4000, 1, n - 0x4000);
        } else if width == 4 {
            lemma_fundamental_div_mod_converse(n, 0x4000_0000, 2, n - 0x8000_0000);
        } else {
            lemma_fundamental_div_mod_converse(
                n,
                0x4000_0000_0000_0000,
                3,
                n - 0xC000_0000_0000_0000,
            );
        }
    }
}

/// The bytes that a value is written as: the fewest of one, two, four or eight that hold it
/// beside the two top bits, which tell how many there are.
pub proof fn law_varint_wire(value: nat)
    requires
        value < 0x4000_0000_0000_0000,
    ensures
        ({
            let b = varint_bytes(value);
            &&& b.len() == varint_len(value)
            &&& value < 0x40 ==> b == seq![value as u8]
            &&& 0x40 <= value < 0x4000 ==> b.len() == 2 && b[0] * 0x100 + b[1] == 0x4000 + value
            &&& 0x4000 <= value < 0x4000_0000 ==> b.len() == 4 && b[0] * 0x100_0000 + b[1]
                * 0x1_0000 + b[2] * 0x100 + b[3] == 0x8000_0000 + value
            &&& 0x4000_0000 <= value ==> b.len() == 8 && b[0] * 0x100_0000_0000_0000 + b[1]
                * 0x1_0000_0000_0000 + b[2] * 0x100_0000_0000 + b[3] * 0x1_0000_0000 + b[4]
                * 0x100_0000 + b[5] * 0x1_0000 + b[6] * 0x100 + b[7] == 0xC000_0000_0000_0000
                + value
        }),
{
    let width = varint_len(value);
    let b = varint_bytes(value);
    let empty = Seq::<u8>::empty();
    lemma_varint_bytes_shape(value);
    law_varint_round_trip(value, empty);
    assert(b + empty =~= b);
    law_varint_fields(b);
    if value < 0x40 {
        assert(b =~= seq![value as u8]);
    }
}

/// The largest value is the largest number of 62 bits, and every value up to it is accepted
/// by the field that is just wide enough: no narrower field of the four holds it.
pub proof fn law_varint_limits(value: nat)
    ensures
        VarInt::MAX == 4_611_686_018_427_387_903,
        value < 64 <==> varint_len(value) == 1,
        64 <= value < 16_384 <==> varint_len(value) == 2,
        16_384 <= value < 1_073_741_824 <==> varint_len(value) == 4,
        1_073_741_824 <= value <==> varint_len(value) == 8,
{
}

/// The two length bits that `varint_prefix` tells are the top two of the byte, and the width
/// doubles with each: one byte for 0, up to eight for 3.
pub proof fn law_varint_prefix(first: u8)
    ensures
        width_tag(field_width(first)) == first as nat / 64,
        width_tag(field_width(first)) == 0 <==> field_width(first) == 1,
        width_tag(field_width(first)) == 1 <==> field_width(first) == 2,
        width_tag(field_width(first)) == 2 <==> field_width(first) == 4,
        width_tag(field_width(first)) == 3 <==> field_width(first) == 8,
{
}

} // verus!
