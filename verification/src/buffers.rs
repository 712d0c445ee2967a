//! Byte buffers: the `bytes` crate's `Bytes` and `BytesMut`, described by the
//! sequence of bytes that they hold, and the two traits through which the codec
//! reads and writes.

use bytes::{Buf, BufMut, Bytes, BytesMut};
use vstd::prelude::*;

verus! {

/// `bytes::Bytes`, a shared read-only run of bytes.
#[verifier::external_type_specification]
#[verifier::external_body]
pub struct ExBytes(Bytes);

/// `bytes::BytesMut`, an owned growable run of bytes.
#[verifier::external_type_specification]
#[verifier::external_body]
pub struct ExBytesMut(BytesMut);

/// The bytes that a `Bytes` holds, first byte first.
pub uninterp spec fn bytes_seq(b: Bytes) -> Seq<u8>;

/// The bytes that a `BytesMut` holds, first byte first.
pub uninterp spec fn bytes_mut_seq(b: BytesMut) -> Seq<u8>;

/// `Bytes::len`: the number of bytes held.
#[verifier::external_body]
pub(crate) fn bytes_len(b: &Bytes) -> (n: usize)
    ensures
        n == bytes_seq(*b).len(),
{
    b.len()
}

/// `Buf::chunk` of `Bytes`: all the bytes held, as one slice.
#[verifier::external_body]
pub(crate) fn bytes_chunk(b: &Bytes) -> (s: &[u8])
    ensures
        s@ == bytes_seq(*b),
{
    Buf::chunk(b)
}

/// `Buf::advance` of `Bytes`: drops the first `cnt` bytes. It panics when fewer
/// are held.
#[verifier::external_body]
pub(crate) fn bytes_advance(b: &mut Bytes, cnt: usize)
    requires
        cnt <= bytes_seq(*old(b)).len(),
    ensures
        bytes_seq(*final(b)) == bytes_seq(*old(b)).skip(cnt as int),
{
    Buf::advance(b, cnt);
}

/// `Clone::clone` of `Bytes`: another handle on the same bytes.
pub assume_specification[ <Bytes as Clone>::clone ](b: &Bytes) -> (c: Bytes)
    ensures
        bytes_seq(c) == bytes_seq(*b),
;

/// `BytesMut::with_capacity`: an empty buffer. A capacity over `isize::MAX` panics.
#[verifier::external_body]
pub(crate) fn bytes_mut_with_capacity(capacity: usize) -> (b: BytesMut)
    requires
        capacity <= isize::MAX,
    ensures
        bytes_mut_seq(b) == Seq::<u8>::empty(),
{
    BytesMut::with_capacity(capacity)
}

/// `BytesMut::len`: the number of bytes held.
#[verifier::external_body]
pub(crate) fn bytes_mut_len(b: &BytesMut) -> (n: usize)
    ensures
        n == bytes_mut_seq(*b).len(),
{
    b.len()
}

/// `Buf::chunk` of `BytesMut`: all the bytes held, as one slice.
#[verifier::external_body]
pub(crate) fn bytes_mut_chunk(b: &BytesMut) -> (s: &[u8])
    ensures
        s@ == bytes_mut_seq(*b),
{
    Buf::chunk(b)
}

/// `Buf::advance` of `BytesMut`: drops the first `cnt` bytes. It panics when fewer
/// are held.
#[verifier::external_body]
pub(crate) fn bytes_mut_advance(b: &mut BytesMut, cnt: usize)
    requires
        cnt <= bytes_mut_seq(*old(b)).len(),
    ensures
        bytes_mut_seq(*final(b)) == bytes_mut_seq(*old(b)).skip(cnt as int),
{
    Buf::advance(b, cnt);
}

/// `BufMut::put_u8` of `BytesMut`: appends one byte. A buffer holds at most
/// `isize::MAX` bytes; running out of memory before that is not described here, as
/// it is not for `Vec`.
#[verifier::external_body]
pub(crate) fn bytes_mut_put_u8(b: &mut BytesMut, byte: u8)
    requires
        bytes_mut_seq(*old(b)).len() < isize::MAX,
    ensures
        bytes_mut_seq(*final(b)) == bytes_mut_seq(*old(b)).push(byte),
{
    BufMut::put_u8(b, byte);
}

/// `BytesMut::extend_from_slice`: appends the bytes of a slice, within the same
/// limit as `bytes_mut_put_u8`.
#[verifier::external_body]
pub(crate) fn bytes_mut_extend_from_slice(b: &mut BytesMut, s: &[u8])
    requires
        bytes_mut_seq(*old(b)).len() + s@.len() <= isize::MAX,
    ensures
        bytes_mut_seq(*final(b)) == bytes_mut_seq(*old(b)) + s@,
{
    b.extend_from_slice(s);
}

/// `BytesMut::split_to`: takes the first `at` bytes out of the buffer. It panics
/// when fewer are held.
#[verifier::external_body]
pub(crate) fn bytes_mut_split_to(b: &mut BytesMut, at: usize) -> (head: BytesMut)
    requires
        at <= bytes_mut_seq(*old(b)).len(),
    ensures
        bytes_mut_seq(head) == bytes_mut_seq(*old(b)).take(at as int),
        bytes_mut_seq(*final(b)) == bytes_mut_seq(*old(b)).skip(at as int),
{
    b.split_to(at)
}

/// `BytesMut::freeze`: the same bytes, read-only.
#[verifier::external_body]
pub(crate) fn bytes_mut_freeze(b: BytesMut) -> (r: Bytes)
    ensures
        bytes_seq(r) == bytes_mut_seq(b),
{
    b.freeze()
}

/// A cursor over bytes that are read from the front.
pub trait ByteSource: Sized {
    /// The bytes not read yet.
    spec fn unread(&self) -> Seq<u8>;

    /// The number of bytes not read yet.
    fn remaining(&self) -> (n: usize)
        ensures
            n == self.unread().len(),
    ;

    /// The first of the bytes not read yet: at least one when there is any.
    fn chunk(&self) -> (s: &[u8])
        ensures
            s@.is_prefix_of(self.unread()),
            self.unread().len() > 0 ==> s@.len() > 0,
    ;

    /// Skips `cnt` bytes.
    fn advance(&mut self, cnt: usize)
        requires
            cnt <= old(self).unread().len(),
        ensures
            final(self).unread() == old(self).unread().skip(cnt as int),
    ;

    /// Reads one byte.
    fn get_u8(&mut self) -> (byte: u8)
        requires
            old(self).unread().len() >= 1,
        ensures
            byte == old(self).unread()[0],
            final(self).unread() == old(self).unread().skip(1),
    {
        let byte: u8 = self.chunk()[0];
        self.advance(1);
        byte
    }
}

impl ByteSource for Bytes {
    open spec fn unread(&self) -> Seq<u8> {
        bytes_seq(*self)
    }

    fn remaining(&self) -> (n: usize) {
        bytes_len(self)
    }

    fn chunk(&self) -> (s: &[u8]) {
        bytes_chunk(self)
    }

    fn advance(&mut self, cnt: usize) {
        bytes_advance(self, cnt);
    }
}

impl ByteSource for BytesMut {
    open spec fn unread(&self) -> Seq<u8> {
        bytes_mut_seq(*self)
    }

    fn remaining(&self) -> (n: usize) {
        bytes_mut_len(self)
    }

    fn chunk(&self) -> (s: &[u8]) {
        bytes_mut_chunk(self)
    }

    fn advance(&mut self, cnt: usize) {
        bytes_mut_advance(self, cnt);
    }
}

impl<'a> ByteSource for &'a [u8] {
    open spec fn unread(&self) -> Seq<u8> {
        (*self)@
    }

    fn remaining(&self) -> (n: usize) {
        self.len()
    }

    fn chunk(&self) -> (s: &[u8]) {
        self
    }

    fn advance(&mut self, cnt: usize) {
        let whole: &'a [u8] = *self;
        *self = vstd::slice::slice_subrange(whole, cnt, whole.len());
    }
}

/// A buffer that bytes are appended to.
pub trait ByteSink: Sized {
    /// The bytes held.
    spec fn written(&self) -> Seq<u8>;

    /// How many more bytes fit.
    spec fn room(&self) -> int;

    /// Appends one byte.
    fn put_u8(&mut self, byte: u8)
        requires
            old(self).room() >= 1,
        ensures
            final(self).written() == old(self).written().push(byte),
            final(self).room() == old(self).room() - 1,
    ;
}

impl ByteSink for BytesMut {
    open spec fn written(&self) -> Seq<u8> {
        bytes_mut_seq(*self)
    }

    open spec fn room(&self) -> int {
        isize::MAX - bytes_mut_seq(*self).len()
    }

    fn put_u8(&mut self, byte: u8) {
        bytes_mut_put_u8(self, byte);
    }
}

impl ByteSink for Vec<u8> {
    open spec fn written(&self) -> Seq<u8> {
        self@
    }

    open spec fn room(&self) -> int {
        isize::MAX - self@.len()
    }

    fn put_u8(&mut self, byte: u8) {
        self.push(byte);
    }
}

} // verus!
