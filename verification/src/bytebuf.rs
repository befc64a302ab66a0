//! Trusted interface to `bytes::BytesMut`, the growable byte buffer the
//! codecs accumulate socket input in.
//!
//! The buffer is opaque to the verifier; `buf_bytes` names the bytes it
//! holds, and each wrapper states, over that name, what one method of the
//! `bytes` crate does to them.

use vstd::prelude::*;

verus! {

#[verifier::external_type_specification]
#[verifier::external_body]
pub struct ExBytesMut(bytes::BytesMut);

/// The bytes a `BytesMut` holds, in order.
pub uninterp spec fn buf_bytes(b: bytes::BytesMut) -> Seq<u8>;

/// Relies on `BytesMut::len`: the number of bytes held.
#[verifier::external_body]
pub(crate) fn buf_len(b: &bytes::BytesMut) -> (r: usize)
    ensures
        r == buf_bytes(*b).len(),
{
    b.len()
}

/// Relies on the `Deref<Target = [u8]>` impl of `BytesMut`: indexing reads
/// the held bytes.
#[verifier::external_body]
pub(crate) fn buf_get(b: &bytes::BytesMut, i: usize) -> (r: u8)
    requires
        i < buf_bytes(*b).len(),
    ensures
        r == buf_bytes(*b)[i as int],
{
    b[i]
}

/// Relies on the `DerefMut<Target = [u8]>` impl of `BytesMut`: writing
/// through an index replaces that byte.
#[verifier::external_body]
pub(crate) fn buf_set(b: &mut bytes::BytesMut, i: usize, v: u8)
    requires
        i < buf_bytes(*old(b)).len(),
    ensures
        buf_bytes(*final(b)) == buf_bytes(*old(b)).update(i as int, v),
{
    b[i] = v;
}

/// Relies on `bytes::BufMut::put_u8` for `BytesMut`: appends one byte,
/// growing the buffer as needed.
#[verifier::external_body]
pub(crate) fn buf_push(b: &mut bytes::BytesMut, v: u8)
    ensures
        buf_bytes(*final(b)) == buf_bytes(*old(b)).push(v),
{
    bytes::BufMut::put_u8(b, v)
}

/// Relies on `BytesMut::split`: hands out all held bytes and leaves the
/// buffer empty.
#[verifier::external_body]
pub(crate) fn buf_split_all(b: &mut bytes::BytesMut) -> (r: bytes::BytesMut)
    ensures
        buf_bytes(r) == buf_bytes(*old(b)),
        buf_bytes(*final(b)) == Seq::<u8>::empty(),
{
    b.split()
}

/// Relies on `BytesMut::split_to`: the first `at` bytes leave, the rest
/// stay.
#[verifier::external_body]
pub(crate) fn buf_split_to(b: &mut bytes::BytesMut, at: usize) -> (r: bytes::BytesMut)
    requires
        at <= buf_bytes(*old(b)).len(),
    ensures
        buf_bytes(r) == buf_bytes(*old(b)).subrange(0, at as int),
        buf_bytes(*final(b)) == buf_bytes(*old(b)).subrange(
            at as int,
            buf_bytes(*old(b)).len() as int,
        ),
{
    b.split_to(at)
}

/// Relies on the `Deref<Target = [u8]>` impl of `BytesMut` and
/// `<[u8]>::to_vec`: a copy of the held bytes.
#[verifier::external_body]
pub(crate) fn buf_to_vec(b: &bytes::BytesMut) -> (r: Vec<u8>)
    ensures
        r@ == buf_bytes(*b),
{
    b.to_vec()
}

/// Relies on `BytesMut::clear`: removes all bytes.
#[verifier::external_body]
pub(crate) fn buf_clear(b: &mut bytes::BytesMut)
    ensures
        buf_bytes(*final(b)) == Seq::<u8>::empty(),
{
    b.clear()
}

/// Relies on `BytesMut::extend_from_slice`: appends the given bytes.
#[verifier::external_body]
pub(crate) fn buf_extend(b: &mut bytes::BytesMut, v: &Vec<u8>)
    ensures
        buf_bytes(*final(b)) == buf_bytes(*old(b)) + v@,
{
    b.extend_from_slice(v.as_slice())
}

} // verus!
