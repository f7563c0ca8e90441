//! Trusted boundary to the `bytes` crate: a reference-counted byte buffer
//! with zero-copy sub-ranges, seen by the proofs as a `Seq<u8>`.

use vstd::prelude::*;

verus! {

#[verifier::external_type_specification]
#[verifier::external_body]
pub struct ExBytes(bytes::Bytes);

/// The bytes that a `bytes::Bytes` buffer holds, in order.
pub uninterp spec fn bytes_view(b: bytes::Bytes) -> Seq<u8>;

/// Relies on `AsRef<[u8]> for bytes::Bytes`: a borrowed view of the whole
/// buffer, unchanged.
#[verifier::external_body]
pub(crate) fn bytes_as_slice(b: &bytes::Bytes) -> (r: &[u8])
    ensures
        r@ == bytes_view(*b),
{
    b.as_ref()
}

/// Relies on `bytes::Bytes::slice`: a zero-copy sub-view covering exactly
/// the bytes of an in-range span; panics only out of range, which the
/// precondition rules out.
#[verifier::external_body]
pub(crate) fn bytes_slice(b: &bytes::Bytes, begin: usize, end: usize) -> (r: bytes::Bytes)
    requires
        begin <= end <= bytes_view(*b).len(),
    ensures
        bytes_view(r) == bytes_view(*b).subrange(begin as int, end as int),
{
    b.slice(begin..end)
}

} // verus!
