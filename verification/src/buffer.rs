//! The byte buffers that carry encoded messages: `bytes::Bytes`, with what its
//! conversions to and from `Vec<u8>` keep.

use vstd::prelude::*;

use bytes::Bytes;

verus! {

#[verifier::external_type_specification]
#[verifier::external_body]
pub struct ExBytes(Bytes);

/// The bytes a `Bytes` buffer holds.
pub uninterp spec fn bytes_contents(b: Bytes) -> Seq<u8>;

/// Calls `<Bytes as From<Vec<u8>>>::from`, which takes over the vector's
/// allocation: the buffer holds exactly the vector's bytes.
#[verifier::external_body]
pub(crate) fn bytes_from_vec(v: Vec<u8>) -> (b: Bytes)
    ensures
        bytes_contents(b) == v@,
{
    Bytes::from(v)
}

/// Calls `<Vec<u8> as From<Bytes>>::from`, which returns a vector holding
/// exactly the buffer's bytes.
#[verifier::external_body]
pub(crate) fn bytes_into_vec(b: Bytes) -> (v: Vec<u8>)
    ensures
        v@ == bytes_contents(b),
{
    Vec::from(b)
}

} // verus!
