//! Boundary-owned buffers: data that crosses to the foreign caller is
//! copied into a buffer of its own, owned by the envelope that carries
//! it until the matching release call reclaims it.

use vstd::prelude::*;
use vstd::slice::slice_to_vec;

verus! {

/// Produce the boundary-owned copy of an encoded result: a fresh buffer
/// holding exactly the given bytes, whose ownership moves to the
/// envelope that will carry it.
pub fn allocate_binary_result(data: &[u8]) -> (r: Vec<u8>)
    ensures
        r@ == data@,
{
    slice_to_vec(data)
}

} // verus!
