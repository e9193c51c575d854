//! The shared byte range and the growable byte buffer of the `bytes` crate, as
//! this library sees them: each holds a sequence of bytes.

use bytes::{Bytes, BytesMut};
use vstd::prelude::*;
use vstd::utf8::*;

verus! {

#[verifier::external_type_specification]
#[verifier::external_body]
pub struct ExBytes(Bytes);

#[verifier::external_type_specification]
#[verifier::external_body]
pub struct ExBytesMut(BytesMut);

/// The bytes that a shared byte range views, in order.
pub uninterp spec fn bytes_contents(b: Bytes) -> Seq<u8>;

/// The bytes that a growable buffer currently holds, in order.
pub uninterp spec fn buffer_contents(b: BytesMut) -> Seq<u8>;

/// Relies on `Bytes`'s `Clone`: the new handle views the same bytes.
pub assume_specification[ <Bytes as Clone>::clone ](b: &Bytes) -> (r: Bytes)
    ensures
        bytes_contents(r) == bytes_contents(*b),
;

/// Relies on `BytesMut`'s `AsRef<[u8]>`: a slice over exactly the buffer's bytes.
#[verifier::external_body]
pub(crate) fn buffer_as_slice(b: &BytesMut) -> (r: &[u8])
    ensures
        r@ == buffer_contents(*b),
{
    b.as_ref()
}

/// Relies on `BytesMut::split_to`: the first `at` bytes move out, the rest stay.
#[verifier::external_body]
pub(crate) fn buffer_split_to(b: &mut BytesMut, at: usize) -> (r: BytesMut)
    requires
        at <= buffer_contents(*old(b)).len(),
    ensures
        buffer_contents(r) == buffer_contents(*old(b)).subrange(0, at as int),
        buffer_contents(*final(b)) == buffer_contents(*old(b)).subrange(
            at as int,
            buffer_contents(*old(b)).len() as int,
        ),
{
    b.split_to(at)
}

/// Relies on `BytesMut::take`: every byte moves out and the buffer is left empty.
#[verifier::external_body]
pub(crate) fn buffer_take(b: &mut BytesMut) -> (r: BytesMut)
    ensures
        buffer_contents(r) == buffer_contents(*old(b)),
        buffer_contents(*final(b)) == Seq::<u8>::empty(),
{
    b.take()
}

/// Relies on `BytesMut::freeze`: the shared range views the same bytes.
#[verifier::external_body]
pub(crate) fn buffer_freeze(b: BytesMut) -> (r: Bytes)
    ensures
        bytes_contents(r) == buffer_contents(b),
{
    b.freeze()
}

/// Relies on `Bytes`'s `AsRef<[u8]>`: a slice over exactly the viewed bytes.
#[verifier::external_body]
pub(crate) fn bytes_as_slice(b: &Bytes) -> (r: &[u8])
    ensures
        r@ == bytes_contents(*b),
{
    b.as_ref()
}

/// Relies on `Bytes::new`: an empty range.
#[verifier::external_body]
pub(crate) fn bytes_empty() -> (r: Bytes)
    ensures
        bytes_contents(r) == Seq::<u8>::empty(),
{
    Bytes::new()
}

/// Relies on `Bytes::from_static`: the range views the string's UTF-8 bytes.
#[verifier::external_body]
pub(crate) fn bytes_from_static(s: &'static str) -> (r: Bytes)
    ensures
        bytes_contents(r) == encode_utf8(s@),
{
    Bytes::from_static(s.as_bytes())
}

/// Relies on `Bytes`'s `From<String>`: the range takes over the string's UTF-8 bytes.
#[verifier::external_body]
pub(crate) fn bytes_from_string(s: String) -> (r: Bytes)
    ensures
        bytes_contents(r) == encode_utf8(s@),
{
    Bytes::from(s)
}

/// Relies on `Bytes`'s `From<&str>`: the range holds a copy of the string's UTF-8 bytes.
#[verifier::external_body]
pub(crate) fn bytes_from_str(s: &str) -> (r: Bytes)
    ensures
        bytes_contents(r) == encode_utf8(s@),
{
    Bytes::from(s)
}

} // verus!
