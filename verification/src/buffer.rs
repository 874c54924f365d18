//! The byte buffers of the `bytes` crate, as far as the encoder uses them.
//!
//! Verus sees neither type from the inside. What a buffer holds is named by
//! [`bytes_mut_content`] and [`bytes_content`]; each function below makes one
//! call into `bytes` and states, without proof, what that call does to the
//! contents.

use bytes::BufMut;
use vstd::prelude::*;

verus! {

/// The longest content that a buffer is asked to hold: a quarter of the
/// address space. A buffer doubles its capacity when it grows; within this
/// bound the doubled capacity stays under `isize::MAX`, the largest
/// allocation there is.
pub const MAX_MESSAGE_BYTES: usize = usize::MAX / 4;

/// `bytes::BytesMut`, a growable byte buffer. Opaque here.
#[verifier::external_type_specification]
#[verifier::external_body]
pub struct ExBytesMut(bytes::BytesMut);

/// `bytes::Bytes`, an immutable byte buffer. Opaque here.
#[verifier::external_type_specification]
#[verifier::external_body]
pub struct ExBytes(bytes::Bytes);

/// The bytes that a growable buffer holds, first to last.
pub uninterp spec fn bytes_mut_content(buf: bytes::BytesMut) -> Seq<u8>;

/// The bytes that a frozen buffer holds, first to last.
pub uninterp spec fn bytes_content(bytes: bytes::Bytes) -> Seq<u8>;

/// The two bytes of a 16-bit number in network order, high byte first.
pub open spec fn be16(n: u16) -> Seq<u8> {
    seq![(n / 256) as u8, (n % 256) as u8]
}

/// `BytesMut::new`: a buffer that holds no bytes.
#[verifier::external_body]
pub(crate) fn buffer_new() -> (buf: bytes::BytesMut)
    ensures
        bytes_mut_content(buf) == Seq::<u8>::empty(),
{
    bytes::BytesMut::new()
}

/// `BufMut::put_u8` on a `BytesMut`: appends the one byte. The buffer grows
/// as needed; the call panics only where the capacity asked for would pass
/// `isize::MAX`, which the precondition excludes.
#[verifier::external_body]
pub(crate) fn buffer_put_u8(buf: &mut bytes::BytesMut, n: u8)
    requires
        bytes_mut_content(*old(buf)).len() + 1 <= MAX_MESSAGE_BYTES,
    ensures
        bytes_mut_content(*final(buf)) == bytes_mut_content(*old(buf)).push(n),
{
    buf.put_u8(n)
}

/// `BufMut::put_u16` on a `BytesMut`: appends the number's two bytes in
/// big-endian order. Panics only where the capacity asked for would pass
/// `isize::MAX`.
#[verifier::external_body]
pub(crate) fn buffer_put_u16(buf: &mut bytes::BytesMut, n: u16)
    requires
        bytes_mut_content(*old(buf)).len() + 2 <= MAX_MESSAGE_BYTES,
    ensures
        bytes_mut_content(*final(buf)) == bytes_mut_content(*old(buf)) + be16(n),
{
    buf.put_u16(n)
}

/// `BufMut::put_slice` on a `BytesMut`: appends the slice's bytes in order.
/// Panics only where the capacity asked for would pass `isize::MAX`.
#[verifier::external_body]
pub(crate) fn buffer_put_slice(buf: &mut bytes::BytesMut, src: &[u8])
    requires
        bytes_mut_content(*old(buf)).len() + src@.len() <= MAX_MESSAGE_BYTES,
    ensures
        bytes_mut_content(*final(buf)) == bytes_mut_content(*old(buf)) + src@,
{
    buf.put_slice(src)
}

/// `BytesMut::freeze`: the same bytes, now immutable.
#[verifier::external_body]
pub(crate) fn buffer_freeze(buf: bytes::BytesMut) -> (bytes: bytes::Bytes)
    ensures
        bytes_content(bytes) == bytes_mut_content(buf),
{
    buf.freeze()
}

/// `Bytes::len`: the number of bytes held.
#[verifier::external_body]
pub(crate) fn buffer_len(bytes: &bytes::Bytes) -> (n: usize)
    ensures
        n == bytes_content(*bytes).len(),
{
    bytes.len()
}

} // verus!
