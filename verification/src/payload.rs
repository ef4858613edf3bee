//! Payload buffers.
//!
//! A message's payload is held in a `bytes::Bytes` buffer, an
//! immutable, cheaply shareable byte container. Verus treats the type
//! as opaque, so the buffer's contents are named by the spec function
//! `bytes_seq`, and the few operations the engine needs are declared
//! here with contracts over that name.
use vstd::prelude::*;

verus! {

#[verifier::external_type_specification]
#[verifier::external_body]
pub struct ExBytes(bytes::Bytes);

/// The byte contents of a `bytes::Bytes` buffer.
pub uninterp spec fn bytes_seq(b: bytes::Bytes) -> Seq<u8>;

/// Relies on `bytes::Bytes::copy_from_slice`: the returned buffer
/// holds a copy of the slice's bytes.
#[verifier::external_body]
pub(crate) fn bytes_copy_from_slice(data: &[u8]) -> (r: bytes::Bytes)
    ensures
        bytes_seq(r) == data@,
{
    bytes::Bytes::copy_from_slice(data)
}

/// Relies on `<bytes::Bytes as PartialEq<[u8]>>::eq`: a buffer equals
/// a slice exactly when their byte contents are equal.
#[verifier::external_body]
pub(crate) fn bytes_eq_slice(b: &bytes::Bytes, s: &[u8]) -> (r: bool)
    ensures
        r == (bytes_seq(*b) =~= s@),
{
    *b == *s
}

} // verus!
