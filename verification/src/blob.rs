//! Byte blobs. Values and messages are held as `bytes::Bytes`, so that a copy
//! handed out in a response shares the payload with the stored value.

use bytes::Bytes;
use vstd::prelude::*;

verus! {

#[verifier::external_type_specification]
#[verifier::external_body]
pub struct ExBytes(bytes::Bytes);

/// The bytes that a blob holds, in order.
pub uninterp spec fn blob_bytes(blob: Bytes) -> Seq<u8>;

/// `Bytes::copy_from_slice` makes a blob that holds a copy of the slice.
pub assume_specification[ Bytes::copy_from_slice ](data: &[u8]) -> (blob: Bytes)
    ensures
        blob_bytes(blob) == data@,
;

/// Cloning a `Bytes` gives a second handle on the same bytes.
pub assume_specification[ <Bytes as Clone>::clone ](blob: &Bytes) -> (copy: Bytes)
    ensures
        blob_bytes(copy) == blob_bytes(*blob),
;

/// `Bytes` dereferences to the slice of the bytes it holds.
pub assume_specification<'a>[ <Bytes as core::ops::Deref>::deref ](blob: &'a Bytes) -> (data: &'a [u8])
    ensures
        data@ == blob_bytes(*blob),
;

} // verus!
