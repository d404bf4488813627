//! The byte buffer of the `bytes` crate, as far as the codec uses it.
//!
//! Nothing in this file is proved: each contract restates what the `bytes`
//! crate documents for the method that the body calls.
use bytes::BytesMut;
use vstd::prelude::*;

verus! {

#[verifier::external_type_specification]
#[verifier::external_body]
pub struct ExBytesMut(BytesMut);

/// The bytes that a buffer holds, first to last.
pub uninterp spec fn buffered(b: BytesMut) -> Seq<u8>;

/// `BytesMut::len`: the number of bytes in the buffer.
#[verifier::external_body]
pub(crate) fn buffer_len(b: &BytesMut) -> (n: usize)
    ensures
        n == buffered(*b).len(),
{
    b.len()
}

/// Indexing through `Deref<Target = [u8]>`: the byte at position `i`.
#[verifier::external_body]
pub(crate) fn buffer_byte(b: &BytesMut, i: usize) -> (v: u8)
    requires
        i < buffered(*b).len(),
    ensures
        v == buffered(*b)[i as int],
{
    b[i]
}

/// `BytesMut::split_to`: afterwards the buffer holds the bytes from `at` on,
/// and the result holds the bytes before `at`. The method panics when `at`
/// is past the end, which the precondition leaves out.
#[verifier::external_body]
pub(crate) fn buffer_split_to(b: &mut BytesMut, at: usize) -> (head: BytesMut)
    requires
        at <= buffered(*old(b)).len(),
    ensures
        buffered(head) == buffered(*old(b)).subrange(0, at as int),
        buffered(*final(b)) == buffered(*old(b)).subrange(at as int, buffered(*old(b)).len() as int),
{
    b.split_to(at)
}

/// `BytesMut::extend_from_slice`: appends the bytes, growing the buffer as
/// needed. Reserving panics when the new length overflows `usize`, which
/// the precondition leaves out.
#[verifier::external_body]
pub(crate) fn buffer_extend(b: &mut BytesMut, bytes: &[u8])
    requires
        buffered(*old(b)).len() + bytes@.len() <= usize::MAX,
    ensures
        buffered(*final(b)) == buffered(*old(b)) + bytes@,
{
    b.extend_from_slice(bytes)
}

/// `<[u8]>::to_vec` on the buffer's contents: a vector with the same bytes.
#[verifier::external_body]
pub(crate) fn buffer_to_vec(b: &BytesMut) -> (v: Vec<u8>)
    ensures
        v@ == buffered(*b),
{
    b.to_vec()
}

} // verus!
